//! A verified core for an embedding-and-vector-index integration layer:
//! it turns text documents into points with deterministic identity, manages
//! a model of the store's collection lifecycle, and states the semantics of
//! metadata-filtered similarity queries.
use vstd::prelude::*;

pub mod blocks;
pub mod errors;
pub mod filter;
pub mod payload;
pub mod point;
pub mod registry;
pub mod retrieve;
pub mod store;

verus! {

/// Compares two string slices character by character.
pub fn str_eq(a: &str, b: &str) -> (r: bool)
    ensures
        r == (a@ == b@),
{
    let alen = a.unicode_len();
    let blen = b.unicode_len();
    if alen != blen {
        proof {
            assert(a@ != b@) by {
                assert(a@.len() != b@.len());
            }
        }
        return false;
    }
    let mut i: usize = 0;
    while i < alen
        invariant
            alen == a@.len(),
            alen == b@.len(),
            i <= alen,
            forall|j: int| 0 <= j < i ==> a@[j] == b@[j],
        decreases alen - i,
    {
        if a.get_char(i) != b.get_char(i) {
            return false;
        }
        i = i + 1;
    }
    proof {
        assert(a@ =~= b@);
    }
    true
}

} // verus!
