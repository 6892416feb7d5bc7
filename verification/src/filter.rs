use vstd::prelude::*;
use crate::payload::Payload;
use crate::str_eq;

verus! {

/// How a filter combines its equality conditions: `All` keeps only points
/// satisfying every condition, `Any` keeps points satisfying at least one.
#[derive(Clone, Copy, Debug, PartialEq, Eq, Structural)]
pub enum FilterMode {
    All,
    Any,
}

/// One equality test against a payload: the value bound to `key` must be
/// exactly `value`.
pub struct Condition {
    pub key: String,
    pub value: String,
}

/// A predicate over payloads: equality conditions combined under a mode.
pub struct Filter {
    pub mode: FilterMode,
    pub conditions: Vec<Condition>,
}

/// Whether a payload satisfies one equality condition.
pub open spec fn condition_holds(p: Payload, c: Condition) -> bool {
    p.spec_get(c.key@) == Some(c.value@)
}

/// Whether a payload satisfies a filter: all conditions under `All`, at
/// least one under `Any`.
pub open spec fn filter_matches(f: Filter, p: Payload) -> bool {
    match f.mode {
        FilterMode::All => forall|i: int|
            0 <= i < f.conditions@.len() ==> condition_holds(p, #[trigger] f.conditions@[i]),
        FilterMode::Any => exists|i: int|
            0 <= i < f.conditions@.len() && condition_holds(p, #[trigger] f.conditions@[i]),
    }
}

/// Builds one equality condition.
pub fn create_condition(condition_key: &str, condition_value: &str) -> (c: Condition)
    ensures
        c.key@ == condition_key@,
        c.value@ == condition_value@,
{
    Condition { key: String::from_str(condition_key), value: String::from_str(condition_value) }
}

/// Reads a filter mode from its textual form: `"all"` and `"any"` are the
/// two supported modes; anything else is unrecognized.
pub fn parse_filter_mode(filter_type: &str) -> (r: Option<FilterMode>)
    ensures
        filter_type@ == "all"@ ==> r == Some(FilterMode::All),
        filter_type@ == "any"@ ==> r == Some(FilterMode::Any),
        filter_type@ != "all"@ && filter_type@ != "any"@ ==> r is None,
{
    proof {
        reveal_strlit("all");
        reveal_strlit("any");
        assert("all"@[1] == 'l' && "any"@[1] == 'n');
    }
    if str_eq(filter_type, "all") {
        Some(FilterMode::All)
    } else if str_eq(filter_type, "any") {
        Some(FilterMode::Any)
    } else {
        None
    }
}

/// Builds the search filter for a textual mode and a list of (key, value)
/// equality conditions. An unrecognized mode yields no filter — the search
/// then proceeds unfiltered — rather than failing.
pub fn create_query_filter(filter_type: &str, filter_conditions: &Vec<(String, String)>) -> (r:
    Option<Filter>)
    ensures
        match r {
            Some(f) => {
                &&& (filter_type@ == "all"@ ==> f.mode == FilterMode::All)
                &&& (filter_type@ == "any"@ ==> f.mode == FilterMode::Any)
                &&& f.conditions@.len() == filter_conditions@.len()
                &&& forall|i: int|
                    0 <= i < f.conditions@.len() ==> (#[trigger] f.conditions@[i]).key@
                        == filter_conditions@[i].0@ && f.conditions@[i].value@
                        == filter_conditions@[i].1@
            },
            None => filter_type@ != "all"@ && filter_type@ != "any"@,
        },
        (filter_type@ == "all"@ || filter_type@ == "any"@) ==> r is Some,
{
    let mode = match parse_filter_mode(filter_type) {
        Some(m) => m,
        None => {
            return None;
        },
    };
    let n = filter_conditions.len();
    let mut conditions: Vec<Condition> = Vec::new();
    let mut i: usize = 0;
    while i < n
        invariant
            n == filter_conditions@.len(),
            i <= n,
            conditions@.len() == i,
            forall|j: int|
                0 <= j < i ==> (#[trigger] conditions@[j]).key@ == filter_conditions@[j].0@
                    && conditions@[j].value@ == filter_conditions@[j].1@,
        decreases n - i,
    {
        conditions.push(
            create_condition(filter_conditions[i].0.as_str(), filter_conditions[i].1.as_str()),
        );
        i = i + 1;
    }
    Some(Filter { mode, conditions })
}

/// Decides whether one payload satisfies one condition.
pub fn condition_matches(p: &Payload, c: &Condition) -> (r: bool)
    ensures
        r == condition_holds(*p, *c),
{
    match p.get(c.key.as_str()) {
        Some(v) => v.eq(&c.value),
        None => false,
    }
}

/// Decides whether a payload satisfies a filter, under the filter's mode.
pub fn matches_payload(f: &Filter, p: &Payload) -> (r: bool)
    ensures
        r == filter_matches(*f, *p),
{
    let n = f.conditions.len();
    let mut i: usize = 0;
    match f.mode {
        FilterMode::All => {
            while i < n
                invariant
                    f.mode is All,
                    n == f.conditions@.len(),
                    i <= n,
                    forall|j: int| 0 <= j < i ==> condition_holds(*p, #[trigger] f.conditions@[j]),
                decreases n - i,
            {
                if !condition_matches(p, &f.conditions[i]) {
                    proof {
                        assert(!condition_holds(*p, f.conditions@[i as int]));
                        assert(!filter_matches(*f, *p));
                    }
                    return false;
                }
                i = i + 1;
            }
            true
        },
        FilterMode::Any => {
            while i < n
                invariant
                    f.mode is Any,
                    n == f.conditions@.len(),
                    i <= n,
                    forall|j: int| 0 <= j < i ==> !condition_holds(*p, #[trigger] f.conditions@[j]),
                decreases n - i,
            {
                if condition_matches(p, &f.conditions[i]) {
                    proof {
                        assert(condition_holds(*p, f.conditions@[i as int]));
                        assert(filter_matches(*f, *p));
                    }
                    return true;
                }
                i = i + 1;
            }
            false
        },
    }
}

/// Whether a payload passes an optional filter; no filter admits
/// everything.
pub open spec fn passes(f: Option<Filter>, p: Payload) -> bool {
    match f {
        Some(fil) => filter_matches(fil, p),
        None => true,
    }
}

/// The indices of the payloads that pass a filter, in their original
/// order.
pub open spec fn matching_idx(payloads: Seq<Payload>, f: Option<Filter>) -> Seq<int>
    decreases payloads.len(),
{
    if payloads.len() == 0 {
        Seq::empty()
    } else {
        let rest = matching_idx(payloads.drop_last(), f);
        if passes(f, payloads.last()) {
            rest.push(payloads.len() - 1)
        } else {
            rest
        }
    }
}

/// Selects the payloads that pass the filter, as their indices, in order.
pub fn matching_payload_indices(payloads: &Vec<Payload>, f: &Option<Filter>) -> (r: Vec<usize>)
    ensures
        r@.map_values(|u: usize| u as int) == matching_idx(payloads@, *f),
{
    let n = payloads.len();
    let mut r: Vec<usize> = Vec::new();
    let mut i: usize = 0;
    while i < n
        invariant
            n == payloads@.len(),
            i <= n,
            r@.map_values(|u: usize| u as int) == matching_idx(payloads@.take(i as int), *f),
        decreases n - i,
    {
        let keep = match f {
            Some(fil) => matches_payload(fil, &payloads[i]),
            None => true,
        };
        proof {
            assert(payloads@.take(i + 1).drop_last() =~= payloads@.take(i as int));
            assert(payloads@.take(i + 1).last() == payloads@[i as int]);
        }
        if keep {
            r.push(i);
            proof {
                assert(r@.map_values(|u: usize| u as int) =~= matching_idx(
                    payloads@.take(i + 1),
                    *f,
                ));
            }
        }
        i = i + 1;
    }
    proof {
        assert(payloads@.take(n as int) =~= payloads@);
    }
    r
}

/// A payload that a filter under `All` admits satisfies each of the
/// filter's conditions; under `Any` it satisfies at least one.
pub proof fn lemma_filter_mode_semantics(f: Filter, p: Payload)
    requires
        filter_matches(f, p),
    ensures
        f.mode == FilterMode::All ==> forall|i: int|
            0 <= i < f.conditions@.len() ==> condition_holds(p, #[trigger] f.conditions@[i]),
        f.mode == FilterMode::Any ==> exists|i: int|
            0 <= i < f.conditions@.len() && condition_holds(p, #[trigger] f.conditions@[i]),
{
}

/// The selected indices are exactly the positions whose payloads pass the
/// filter: each listed index is in range and passes, no index is listed
/// twice (the listing is strictly increasing), and every in-range position
/// that passes is listed.
pub proof fn lemma_matching_idx_exact(payloads: Seq<Payload>, f: Option<Filter>)
    ensures
        forall|k: int|
            0 <= k < matching_idx(payloads, f).len() ==> 0 <= #[trigger] matching_idx(payloads, f)[k]
                < payloads.len() && passes(f, payloads[matching_idx(payloads, f)[k]]),
        forall|k1: int, k2: int|
            0 <= k1 < k2 < matching_idx(payloads, f).len() ==> matching_idx(payloads, f)[k1]
                < matching_idx(payloads, f)[k2],
        forall|i: int|
            0 <= i < payloads.len() && passes(f, #[trigger] payloads[i]) ==> matching_idx(
                payloads,
                f,
            ).contains(i),
    decreases payloads.len(),
{
    if payloads.len() > 0 {
        let prefix = payloads.drop_last();
        lemma_matching_idx_exact(prefix, f);
        assert(forall|j: int| 0 <= j < prefix.len() ==> prefix[j] == payloads[j]);
        let whole = matching_idx(payloads, f);
        let rest = matching_idx(prefix, f);
        assert forall|i: int|
            0 <= i < payloads.len() && passes(f, #[trigger] payloads[i]) implies whole.contains(
            i,
        ) by {
            if i < payloads.len() - 1 {
                assert(rest.contains(i));
                let k = choose|k: int| 0 <= k < rest.len() && rest[k] == i;
                assert(whole[k] == i);
            } else {
                assert(whole.last() == i);
            }
        }
    }
}

} // verus!
