use vstd::prelude::*;
use crate::str_eq;

verus! {

/// Looks a key up in a sequence of (key, value) pairs, front to back,
/// returning the index of the first pair whose key has the given characters.
pub open spec fn find_key(entries: Seq<(String, String)>, key: Seq<char>) -> Option<int>
    decreases entries.len(),
{
    if entries.len() == 0 {
        None
    } else if entries[0].0@ == key {
        Some(0int)
    } else {
        match find_key(entries.drop_first(), key) {
            Some(i) => Some(i + 1),
            None => None,
        }
    }
}

/// What `find_key` returns: the first index bound to `key`, if any.
pub proof fn lemma_find_key_props(entries: Seq<(String, String)>, key: Seq<char>)
    ensures
        match find_key(entries, key) {
            Some(i) => 0 <= i < entries.len() && entries[i].0@ == key && forall|j: int|
                0 <= j < i ==> entries[j].0@ != key,
            None => forall|j: int| 0 <= j < entries.len() ==> entries[j].0@ != key,
        },
    decreases entries.len(),
{
    if entries.len() > 0 && entries[0].0@ != key {
        let rest = entries.drop_first();
        lemma_find_key_props(rest, key);
        match find_key(rest, key) {
            Some(i) => {
                assert(rest[i] == entries[i + 1]);
                assert forall|j: int| 0 <= j < i + 1 implies entries[j].0@ != key by {
                    if j > 0 {
                        assert(rest[j - 1] == entries[j]);
                    }
                }
            },
            None => {
                assert forall|j: int| 0 <= j < entries.len() implies entries[j].0@ != key by {
                    if j > 0 {
                        assert(rest[j - 1] == entries[j]);
                    }
                }
            },
        }
    }
}

/// The value bound to `key` in an association list whose keys are unique
/// (so the first binding is the only one).
pub open spec fn spec_get(entries: Seq<(String, String)>, key: Seq<char>) -> Option<Seq<char>> {
    match find_key(entries, key) {
        Some(i) => Some(entries[i].1@),
        None => None,
    }
}

/// The value bound to `key` when later pairs override earlier ones, as
/// repeated insertion would leave it.
pub open spec fn assoc_last(pairs: Seq<(String, String)>, key: Seq<char>) -> Option<Seq<char>>
    decreases pairs.len(),
{
    if pairs.len() == 0 {
        None
    } else if pairs.last().0@ == key {
        Some(pairs.last().1@)
    } else {
        assoc_last(pairs.drop_last(), key)
    }
}

/// A string-keyed, string-valued mapping attached to a point and returned
/// alongside search results. Insertion replaces the binding of an existing
/// key, so keys stay unique.
pub struct Payload {
    entries: Vec<(String, String)>,
}

impl Payload {
    /// The pairs currently held, in insertion order.
    pub closed spec fn entries(self) -> Seq<(String, String)> {
        self.entries@
    }

    /// Keys are pairwise distinct.
    pub open spec fn wf(self) -> bool {
        forall|i: int, j: int|
            0 <= i < j < self.entries().len() ==> self.entries()[i].0@ != self.entries()[j].0@
    }

    /// The value this payload binds to `key`, if any.
    pub open spec fn spec_get(self, key: Seq<char>) -> Option<Seq<char>> {
        spec_get(self.entries(), key)
    }

    pub fn new() -> (r: Payload)
        ensures
            r.wf(),
            r.entries() == Seq::<(String, String)>::empty(),
            forall|k: Seq<char>| r.spec_get(k) is None,
    {
        let r = Payload { entries: Vec::new() };
        proof {
            assert(forall|k: Seq<char>| r.spec_get(k) is None);
        }
        r
    }

    /// Finds the index of the binding for `key`, if one exists.
    fn index_of(&self, key: &str) -> (r: Option<usize>)
        ensures
            match r {
                Some(i) => i < self.entries().len() && self.entries()[i as int].0@ == key@
                    && find_key(self.entries(), key@) == Some(i as int),
                None => find_key(self.entries(), key@) is None,
            },
    {
        proof {
            lemma_find_key_props(self.entries(), key@);
        }
        let n = self.entries.len();
        let mut i: usize = 0;
        while i < n
            invariant
                n == self.entries().len(),
                i <= n,
                forall|j: int| 0 <= j < i ==> self.entries()[j].0@ != key@,
            decreases n - i,
        {
            if str_eq(self.entries[i].0.as_str(), key) {
                proof {
                    lemma_find_key_props(self.entries(), key@);
                    match find_key(self.entries(), key@) {
                        Some(i0) => {
                            if i0 < i as int {
                                assert(self.entries()[i0].0@ == key@);
                            } else if (i as int) < i0 {
                                assert(self.entries()[i as int].0@ != key@);
                            }
                        },
                        None => {
                            assert(self.entries()[i as int].0@ != key@);
                        },
                    }
                }
                return Some(i);
            }
            i = i + 1;
        }
        None
    }

    /// Binds `key` to `value`, replacing any prior binding of the same key;
    /// every other key keeps its value.
    pub fn insert(&mut self, key: &str, value: String)
        requires
            old(self).wf(),
        ensures
            final(self).wf(),
            final(self).spec_get(key@) == Some(value@),
            forall|k: Seq<char>| k != key@ ==> final(self).spec_get(k) == old(self).spec_get(k),
    {
        proof {
            lemma_find_key_props(self.entries(), key@);
        }
        let slot = self.index_of(key);
        match slot {
            Some(i) => {
                let owned_key = String::from_str(key);
                self.entries.set(i, (owned_key, value));
                proof {
                    lemma_find_key_props(self.entries(), key@);
                    match find_key(self.entries(), key@) {
                        Some(i2) => {
                            if i2 < i as int {
                                assert(old(self).entries()[i2].0@ != key@);
                                assert(self.entries()[i2] == old(self).entries()[i2]);
                            } else if (i as int) < i2 {
                                assert(self.entries()[i as int].0@ == key@);
                            }
                            assert(i2 == i as int);
                        },
                        None => {
                            assert(self.entries()[i as int].0@ == key@);
                        },
                    }
                    assert forall|k: Seq<char>| k != key@ implies final(self).spec_get(k) == old(
                        self,
                    ).spec_get(k) by {
                        assert(self.entries()[i as int].0@ != k && old(self).entries()[i as int].0@
                            != k);
                        lemma_find_key_same(old(self).entries(), self.entries(), k);
                    }
                }
            },
            None => {
                let owned_key = String::from_str(key);
                let ghost pre = self.entries();
                self.entries.push((owned_key, value));
                proof {
                    lemma_find_key_props(pre, key@);
                    lemma_find_key_props(self.entries(), key@);
                    let n = pre.len() as int;
                    match find_key(self.entries(), key@) {
                        Some(i2) => {
                            if i2 < n {
                                assert(self.entries()[i2] == pre[i2]);
                                assert(pre[i2].0@ != key@);
                            }
                            assert(i2 == n);
                        },
                        None => {
                            assert(self.entries()[n].0@ == key@);
                        },
                    }
                    assert forall|k: Seq<char>| k != key@ implies final(self).spec_get(k) == old(
                        self,
                    ).spec_get(k) by {
                        lemma_find_key_same(old(self).entries(), self.entries(), k);
                    }
                }
            },
        }
    }

    /// Looks `key` up.
    pub fn get(&self, key: &str) -> (r: Option<&String>)
        ensures
            match r {
                Some(v) => self.spec_get(key@) == Some(v@),
                None => self.spec_get(key@) is None,
            },
    {
        match self.index_of(key) {
            Some(i) => Some(&self.entries[i].1),
            None => None,
        }
    }

    /// The (key, value) pairs held, in insertion order.
    pub fn pairs(&self) -> (r: &Vec<(String, String)>)
        ensures
            r@ == self.entries(),
    {
        &self.entries
    }

    /// How many keys are bound.
    pub fn len(&self) -> (n: usize)
        ensures
            n == self.entries().len(),
    {
        self.entries.len()
    }

    /// Builds a payload from caller-supplied pairs, inserted front to back,
    /// so a repeated key keeps its last value.
    pub fn from_pairs(pairs: &Vec<(String, String)>) -> (r: Payload)
        ensures
            r.wf(),
            forall|k: Seq<char>| r.spec_get(k) == assoc_last(pairs@, k),
    {
        let mut r = Payload::new();
        let n = pairs.len();
        let mut i: usize = 0;
        while i < n
            invariant
                n == pairs@.len(),
                i <= n,
                r.wf(),
                forall|k: Seq<char>| r.spec_get(k) == assoc_last(pairs@.take(i as int), k),
            decreases n - i,
        {
            let key = pairs[i].0.as_str();
            let value = pairs[i].1.clone();
            r.insert(key, value);
            proof {
                assert(pairs@.take(i + 1).drop_last() =~= pairs@.take(i as int));
                assert(pairs@.take(i + 1).last() == pairs@[i as int]);
                assert forall|k: Seq<char>| r.spec_get(k) == assoc_last(
                    pairs@.take(i + 1),
                    k,
                ) by {}
            }
            i = i + 1;
        }
        proof {
            assert(pairs@.take(n as int) =~= pairs@);
        }
        r
    }
}

/// Two entry lists that agree wherever a key other than the changed one is
/// looked up: replacing or appending a binding for one key leaves every
/// other key's first binding in place.
proof fn lemma_find_key_same(
    pre: Seq<(String, String)>,
    post: Seq<(String, String)>,
    k: Seq<char>,
)
    requires
        pre.len() == post.len() && (exists|i: int|
            0 <= i < pre.len() && post[i].0@ != k && pre[i].0@ != k && forall|j: int|
                0 <= j < pre.len() && j != i ==> post[j] == pre[j]) || (post.len() == pre.len()
            + 1 && post.last().0@ != k && forall|j: int| 0 <= j < pre.len() ==> post[j] == pre[j]),
    ensures
        spec_get(post, k) == spec_get(pre, k),
    decreases pre.len(),
{
    lemma_find_key_props(pre, k);
    lemma_find_key_props(post, k);
    match find_key(pre, k) {
        Some(i) => {
            assert(post[i].0@ == k);
            match find_key(post, k) {
                Some(i2) => {
                    if i2 < i {
                        assert(pre[i2].0@ != k);
                        assert(post[i2] == pre[i2]);
                        assert(false);
                    } else if i < i2 {
                        assert(false);
                    }
                    assert(post[i2].1@ == pre[i].1@);
                },
                None => {
                    assert(false);
                },
            }
        },
        None => {
            match find_key(post, k) {
                Some(i2) => {
                    if i2 < pre.len() {
                        assert(pre[i2].0@ != k);
                        assert(false);
                    } else {
                        assert(false);
                    }
                },
                None => {},
            }
        },
    }
}

} // verus!
