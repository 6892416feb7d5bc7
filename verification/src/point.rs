use vstd::prelude::*;
use crate::errors::Error;
use crate::payload::{Payload, assoc_last};

verus! {

/// The hyphenated rendering of the version-5 UUID of a name in the DNS
/// namespace: a fixed function of the name's characters alone.
pub uninterp spec fn uuid_v5_dns_of(name: Seq<char>) -> Seq<char>;

/// Relies on uuid::Uuid::new_v5 with uuid::Uuid::NAMESPACE_DNS — a SHA-1
/// name-based UUID, deterministic in the namespace and name bytes — and on
/// uuid's Display, documented to render hyphenated lowercase hexadecimal,
/// 36 characters long.
#[verifier::external_body]
fn uuid_v5_dns(name: &str) -> (r: String)
    ensures
        r@ == uuid_v5_dns_of(name@),
        r@.len() == 36,
{
    uuid::Uuid::new_v5(&uuid::Uuid::NAMESPACE_DNS, name.as_bytes()).to_string()
}

/// The identity of the point that a document key maps to. It depends on
/// the key alone — not on the document text or metadata — so re-ingesting
/// a key always addresses the same point.
pub open spec fn point_id_of(key: Seq<char>) -> Seq<char> {
    uuid_v5_dns_of(key)
}

/// The reserved payload key under which every point carries its document's
/// raw text; caller metadata should not reuse it.
pub open spec fn reserved_text_key() -> Seq<char> {
    "document_for_embeddings"@
}

/// A storable point: a deterministic identity and a string-keyed payload.
/// The vector itself is the embedding backend's output and travels outside
/// this core; `check_dimensions` validates its length.
pub struct Point {
    pub id: String,
    pub payload: Payload,
}

impl Point {
    pub open spec fn wf(self) -> bool {
        self.payload.wf()
    }
}

/// What `build` promises of its result, for a given key, text and
/// metadata: the identity is the key's alone, the payload holds the text
/// under the reserved key, and every other key is the caller's metadata,
/// later pairs overriding earlier ones.
pub open spec fn built_point(
    p: Point,
    key: Seq<char>,
    text: Seq<char>,
    metadata: Seq<(String, String)>,
) -> bool {
    &&& p.wf()
    &&& p.id@ == point_id_of(key)
    &&& p.id@.len() == 36
    &&& p.payload.spec_get(reserved_text_key()) == Some(text)
    &&& forall|k: Seq<char>|
        k != reserved_text_key() ==> p.payload.spec_get(k) == assoc_last(metadata, k)
}

/// Converts one (document key, document text, metadata) triple into a
/// storable point. Identity is a function of the key alone; the payload is
/// the caller metadata with the raw text inserted last under the reserved
/// key, so a metadata pair that reused the reserved key is overwritten.
pub fn build(key: &str, text: &str, metadata: &Vec<(String, String)>) -> (p: Point)
    ensures
        built_point(p, key@, text@, metadata@),
{
    let id = uuid_v5_dns(key);
    let mut payload = Payload::from_pairs(metadata);
    payload.insert("document_for_embeddings", String::from_str(text));
    Point { id, payload }
}

/// Maps each document key to its point identity, in order.
pub fn create_ids(text_vec_for_uuid: &Vec<String>) -> (ids: Vec<String>)
    ensures
        ids@.len() == text_vec_for_uuid@.len(),
        forall|i: int|
            0 <= i < ids@.len() ==> (#[trigger] ids@[i])@ == point_id_of(text_vec_for_uuid@[i]@),
{
    let n = text_vec_for_uuid.len();
    let mut ids: Vec<String> = Vec::new();
    let mut i: usize = 0;
    while i < n
        invariant
            n == text_vec_for_uuid@.len(),
            i <= n,
            ids@.len() == i,
            forall|j: int|
                0 <= j < i ==> (#[trigger] ids@[j])@ == point_id_of(text_vec_for_uuid@[j]@),
        decreases n - i,
    {
        ids.push(uuid_v5_dns(text_vec_for_uuid[i].as_str()));
        i = i + 1;
    }
    ids
}

/// Converts a batch of documents into points. The three inputs must agree
/// in length; on a mismatch the whole batch is rejected with
/// `InputLengthMismatch` before any point is built, and no other error is
/// possible.
pub fn build_batch(
    keys: &Vec<String>,
    texts: &Vec<String>,
    metadata: &Vec<Vec<(String, String)>>,
) -> (r: Result<Vec<Point>, Error>)
    ensures
        match r {
            Ok(points) => {
                &&& keys@.len() == texts@.len()
                &&& texts@.len() == metadata@.len()
                &&& points@.len() == keys@.len()
                &&& forall|i: int|
                    0 <= i < points@.len() ==> built_point(
                        #[trigger] points@[i],
                        keys@[i]@,
                        texts@[i]@,
                        metadata@[i]@,
                    )
            },
            Err(e) => {
                &&& e == Error::InputLengthMismatch
                &&& !(keys@.len() == texts@.len() && texts@.len() == metadata@.len())
            },
        },
{
    if !(keys.len() == texts.len() && texts.len() == metadata.len()) {
        return Err(Error::InputLengthMismatch);
    }
    let n = keys.len();
    let mut points: Vec<Point> = Vec::new();
    let mut i: usize = 0;
    while i < n
        invariant
            n == keys@.len(),
            n == texts@.len(),
            n == metadata@.len(),
            i <= n,
            points@.len() == i,
            forall|j: int|
                0 <= j < i ==> built_point(
                    #[trigger] points@[j],
                    keys@[j]@,
                    texts@[j]@,
                    metadata@[j]@,
                ),
        decreases n - i,
    {
        points.push(build(keys[i].as_str(), texts[i].as_str(), &metadata[i]));
        i = i + 1;
    }
    Ok(points)
}

/// Validates that every computed vector length agrees with the target
/// collection's configured dimension, before anything is sent to the
/// store.
pub fn check_dimensions(lengths: &Vec<usize>, expected: usize) -> (r: Result<(), Error>)
    ensures
        match r {
            Ok(()) => forall|i: int| 0 <= i < lengths@.len() ==> lengths@[i] == expected,
            Err(e) => e == Error::DimensionMismatch && exists|i: int|
                0 <= i < lengths@.len() && lengths@[i] != expected,
        },
{
    let n = lengths.len();
    let mut i: usize = 0;
    while i < n
        invariant
            n == lengths@.len(),
            i <= n,
            forall|j: int| 0 <= j < i ==> lengths@[j] == expected,
        decreases n - i,
    {
        if lengths[i] != expected {
            return Err(Error::DimensionMismatch);
        }
        i = i + 1;
    }
    Ok(())
}

/// Two points built from the same key have the same identity, whatever
/// their texts and metadata: point identity is deterministic in the key.
pub proof fn lemma_build_id_deterministic(
    p1: Point,
    p2: Point,
    key: Seq<char>,
    t1: Seq<char>,
    t2: Seq<char>,
    m1: Seq<(String, String)>,
    m2: Seq<(String, String)>,
)
    requires
        built_point(p1, key, t1, m1),
        built_point(p2, key, t2, m2),
    ensures
        p1.id@ == p2.id@,
{
}

} // verus!
