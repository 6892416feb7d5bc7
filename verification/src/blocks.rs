use vstd::prelude::*;
use crate::str_eq;

verus! {

/// What the content source reports of one block of a remote page, as
/// plain values: its type tag, whether it has child pages, its title and
/// identifier, and its plain text.
pub struct Block {
    pub block_type: String,
    pub has_children: bool,
    pub title: String,
    pub id: String,
    pub plain_text: String,
}

/// The markdown-like marker a block type is rendered as: headings become
/// `#` and `##`, bulleted list items become `-`, and any other type tag is
/// kept as it is.
pub open spec fn str_replacer_spec(s: Seq<char>) -> Seq<char> {
    if s == "heading_1"@ {
        "#"@
    } else if s == "heading_2"@ {
        "##"@
    } else if s == "bulleted_list_item"@ {
        "-"@
    } else {
        s
    }
}

/// Maps a block type tag to its markdown-like marker.
pub fn str_replacer(string_to_replace: &str) -> (r: String)
    ensures
        r@ == str_replacer_spec(string_to_replace@),
{
    proof {
        reveal_strlit("heading_1");
        reveal_strlit("heading_2");
        reveal_strlit("bulleted_list_item");
        assert("heading_1"@.len() == 9 && "heading_2"@.len() == 9 && "bulleted_list_item"@.len()
            == 18);
        assert("heading_1"@[8] == '1' && "heading_2"@[8] == '2');
    }
    if str_eq(string_to_replace, "heading_1") {
        String::from_str("#")
    } else if str_eq(string_to_replace, "heading_2") {
        String::from_str("##")
    } else if str_eq(string_to_replace, "bulleted_list_item") {
        String::from_str("-")
    } else {
        String::from_str(string_to_replace)
    }
}

/// The (title, identifier) pairs of the blocks that have child pages, in
/// order.
pub open spec fn child_pages_spec(blocks: Seq<Block>) -> Seq<(String, String)>
    decreases blocks.len(),
{
    if blocks.len() == 0 {
        Seq::empty()
    } else {
        let rest = child_pages_spec(blocks.drop_last());
        if blocks.last().has_children {
            rest.push((blocks.last().title, blocks.last().id))
        } else {
            rest
        }
    }
}

/// Selects the child pages among the fetched blocks: each block that has
/// children contributes its title and identifier, in order.
pub fn child_pages(blocks: &Vec<Block>) -> (r: Vec<(String, String)>)
    ensures
        r@ == child_pages_spec(blocks@),
{
    let n = blocks.len();
    let mut r: Vec<(String, String)> = Vec::new();
    let mut i: usize = 0;
    while i < n
        invariant
            n == blocks@.len(),
            i <= n,
            r@ == child_pages_spec(blocks@.take(i as int)),
        decreases n - i,
    {
        proof {
            assert(blocks@.take(i + 1).drop_last() =~= blocks@.take(i as int));
            assert(blocks@.take(i + 1).last() == blocks@[i as int]);
        }
        if blocks[i].has_children {
            let title = blocks[i].title.clone();
            let id = blocks[i].id.clone();
            r.push((title, id));
        }
        i = i + 1;
    }
    proof {
        assert(blocks@.take(n as int) =~= blocks@);
    }
    r
}

/// One block's line in the flattened page: its marker, its plain text,
/// and a line break.
pub open spec fn line_of(b: Block) -> Seq<char> {
    str_replacer_spec(b.block_type@) + b.plain_text@ + "\n"@
}

/// The flattened, markdown-like text of a page: every block's line, in
/// order.
pub open spec fn page_content_spec(blocks: Seq<Block>) -> Seq<char>
    decreases blocks.len(),
{
    if blocks.len() == 0 {
        Seq::empty()
    } else {
        page_content_spec(blocks.drop_last()) + line_of(blocks.last())
    }
}

/// Flattens a page's blocks into one markdown-like text.
pub fn page_content(blocks: &Vec<Block>) -> (r: String)
    ensures
        r@ == page_content_spec(blocks@),
{
    let n = blocks.len();
    let mut acc = String::new();
    let mut i: usize = 0;
    while i < n
        invariant
            n == blocks@.len(),
            i <= n,
            acc@ == page_content_spec(blocks@.take(i as int)),
        decreases n - i,
    {
        proof {
            assert(blocks@.take(i + 1).drop_last() =~= blocks@.take(i as int));
            assert(blocks@.take(i + 1).last() == blocks@[i as int]);
        }
        let marker = str_replacer(blocks[i].block_type.as_str());
        acc.append(marker.as_str());
        acc.append(blocks[i].plain_text.as_str());
        acc.append("\n");
        i = i + 1;
    }
    proof {
        assert(blocks@.take(n as int) =~= blocks@);
    }
    acc
}

} // verus!
