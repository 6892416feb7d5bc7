use vstd::prelude::*;
use crate::filter::{create_query_filter, Filter, FilterMode};
use crate::payload::Payload;
use crate::point::reserved_text_key;

verus! {

/// How many characters of a leading run of double quotes open `s`.
pub open spec fn quote_prefix_len(s: Seq<char>) -> int
    decreases s.len(),
{
    if s.len() == 0 {
        0
    } else if s[0] == '"' {
        1 + quote_prefix_len(s.drop_first())
    } else {
        0
    }
}

/// How many characters of a trailing run of double quotes close `s`.
pub open spec fn quote_suffix_len(s: Seq<char>) -> int
    decreases s.len(),
{
    if s.len() == 0 {
        0
    } else if s.last() == '"' {
        1 + quote_suffix_len(s.drop_last())
    } else {
        0
    }
}

/// `s` with every leading and trailing double quote removed — the
/// incidental quoting artifact a payload value may pick up on its round
/// trip through storage.
pub open spec fn trim_quotes_spec(s: Seq<char>) -> Seq<char> {
    if quote_prefix_len(s) == s.len() {
        Seq::empty()
    } else {
        s.subrange(quote_prefix_len(s), s.len() - quote_suffix_len(s))
    }
}

/// The leading quote run ends exactly at the first non-quote character.
proof fn lemma_quote_prefix(s: Seq<char>, a: int)
    requires
        0 <= a <= s.len(),
        forall|j: int| 0 <= j < a ==> s[j] == '"',
        a < s.len() ==> s[a] != '"',
    ensures
        quote_prefix_len(s) == a,
    decreases a,
{
    if a > 0 {
        let rest = s.drop_first();
        assert(forall|j: int| 0 <= j < rest.len() ==> rest[j] == s[j + 1]);
        lemma_quote_prefix(rest, a - 1);
    }
}

/// The trailing quote run starts right after the last non-quote character
/// (position `b`; `b == -1` when the whole string is quotes).
proof fn lemma_quote_suffix(s: Seq<char>, b: int)
    requires
        -1 <= b < s.len(),
        forall|j: int| b < j < s.len() ==> s[j] == '"',
        b >= 0 ==> s[b] != '"',
    ensures
        quote_suffix_len(s) == s.len() - 1 - b,
    decreases s.len() - 1 - b,
{
    if b < s.len() - 1 {
        let rest = s.drop_last();
        assert(forall|j: int| 0 <= j < rest.len() ==> rest[j] == s[j]);
        lemma_quote_suffix(rest, b);
    }
}

/// Strips leading and trailing double quotes from a string.
pub fn trim_quotes(s: &str) -> (r: String)
    ensures
        r@ == trim_quotes_spec(s@),
{
    let n = s.unicode_len();
    let mut a: usize = 0;
    while a < n && s.get_char(a) == '"'
        invariant
            n == s@.len(),
            a <= n,
            forall|j: int| 0 <= j < a ==> s@[j] == '"',
        decreases n - a,
    {
        a = a + 1;
    }
    if a == n {
        proof {
            lemma_quote_prefix(s@, n as int);
        }
        return String::new();
    }
    let mut b: usize = n - 1;
    while b > a && s.get_char(b) == '"'
        invariant
            n == s@.len(),
            a <= b < n,
            a < n,
            s@[a as int] != '"',
            forall|j: int| b < j < n ==> s@[j] == '"',
        decreases b,
    {
        b = b - 1;
    }
    proof {
        lemma_quote_prefix(s@, a as int);
        lemma_quote_suffix(s@, b as int);
    }
    let trimmed = s.substring_char(a, b + 1);
    String::from_str(trimmed)
}

/// Turns a query's optional metadata conditions into the filter the
/// search will carry: absent conditions search unfiltered, and an
/// unrecognized mode also falls back to an unfiltered search rather than
/// failing.
pub fn plan_query_filter(
    filter_conditions: Option<&Vec<(String, String)>>,
    filter_mode: &str,
) -> (r: Option<Filter>)
    ensures
        filter_conditions is None ==> r is None,
        match r {
            Some(f) => {
                &&& filter_conditions is Some
                &&& (filter_mode@ == "all"@ ==> f.mode == FilterMode::All)
                &&& (filter_mode@ == "any"@ ==> f.mode == FilterMode::Any)
                &&& f.conditions@.len() == filter_conditions.unwrap()@.len()
                &&& forall|i: int|
                    0 <= i < f.conditions@.len() ==> (#[trigger] f.conditions@[i]).key@
                        == filter_conditions.unwrap()@[i].0@ && f.conditions@[i].value@
                        == filter_conditions.unwrap()@[i].1@
            },
            None => filter_conditions is None || (filter_mode@ != "all"@ && filter_mode@
                != "any"@),
        },
{
    match filter_conditions {
        Some(conditions) => create_query_filter(filter_mode, conditions),
        None => None,
    }
}

/// Pulls a search hit's document text out of its payload: the value under
/// the reserved text key, with incidental quoting trimmed. A payload
/// without the reserved key yields nothing.
pub fn extract_document_text(p: &Payload) -> (r: Option<String>)
    ensures
        match r {
            Some(t) => p.spec_get(reserved_text_key()) is Some && t@ == trim_quotes_spec(
                p.spec_get(reserved_text_key()).unwrap(),
            ),
            None => p.spec_get(reserved_text_key()) is None,
        },
{
    match p.get("document_for_embeddings") {
        Some(v) => Some(trim_quotes(v.as_str())),
        None => None,
    }
}

} // verus!
