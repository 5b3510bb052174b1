//! What resolution means: which bundles are complete, which one wins, and
//! which of its entries are materialized.
use vstd::prelude::*;
use crate::catalog::{RomDescriptor, RomSet, MachineType, def_of, set_ids};

verus! {

/// The views of a sequence of strings.
pub open spec fn strs(v: Seq<String>) -> Seq<Seq<char>> {
    v.map_values(|s: String| s@)
}

/// Every non-optional entry of `set` was found.
pub open spec fn set_complete(
    defs: Seq<RomDescriptor>,
    set: RomSet,
    found: Map<Seq<char>, Seq<char>>,
) -> bool {
    forall|k: int|
        0 <= k < set.roms.len() ==> (!def_of(defs, #[trigger] set.roms@[k]@).optional
            ==> found.contains_key(set.roms@[k]@))
}

/// Bundle `i` is for `profile` and complete.
pub open spec fn is_candidate(
    defs: Seq<RomDescriptor>,
    sets: Seq<RomSet>,
    profile: MachineType,
    found: Map<Seq<char>, Seq<char>>,
    i: int,
) -> bool {
    0 <= i < sets.len() && sets[i].machine_type == profile && set_complete(defs, sets[i], found)
}

/// Bundle `j` ranks before bundle `i`: higher priority, or equal priority and declared first.
pub open spec fn outranks(sets: Seq<RomSet>, j: int, i: int) -> bool {
    sets[j].priority > sets[i].priority || (sets[j].priority == sets[i].priority && j < i)
}

/// Bundle `i` is the one resolution picks: a candidate that no other candidate outranks.
pub open spec fn is_chosen(
    defs: Seq<RomDescriptor>,
    sets: Seq<RomSet>,
    profile: MachineType,
    found: Map<Seq<char>, Seq<char>>,
    i: int,
) -> bool {
    &&& is_candidate(defs, sets, profile, found, i)
    &&& forall|j: int|
        #[trigger] is_candidate(defs, sets, profile, found, j) && j != i ==> !outranks(sets, j, i)
}

pub open spec fn any_candidate(
    defs: Seq<RomDescriptor>,
    sets: Seq<RomSet>,
    profile: MachineType,
    found: Map<Seq<char>, Seq<char>>,
) -> bool {
    exists|i: int| is_candidate(defs, sets, profile, found, i)
}

/// Bundle `i` is the best-ranked bundle for `profile`, complete or not.
pub open spec fn is_top(sets: Seq<RomSet>, profile: MachineType, i: int) -> bool {
    &&& 0 <= i < sets.len()
    &&& sets[i].machine_type == profile
    &&& forall|j: int|
        0 <= j < sets.len() && #[trigger] sets[j].machine_type == profile && j != i ==> !outranks(
            sets,
            j,
            i,
        )
}

/// The required identities among `ids` that were not found.
pub open spec fn missing_required(
    defs: Seq<RomDescriptor>,
    ids: Seq<Seq<char>>,
    found: Map<Seq<char>, Seq<char>>,
) -> Seq<Seq<char>> {
    ids.filter(|id: Seq<char>| !def_of(defs, id).optional && !found.contains_key(id))
}

/// The identities among `ids` that were found.
pub open spec fn present_ids(ids: Seq<Seq<char>>, found: Map<Seq<char>, Seq<char>>) -> Seq<
    Seq<char>,
> {
    ids.filter(|id: Seq<char>| found.contains_key(id))
}

/// Entry `j` of `p` displaces entry `i`: same variant family, and higher
/// priority, or equal priority and listed first.
pub open spec fn displaces(defs: Seq<RomDescriptor>, p: Seq<Seq<char>>, j: int, i: int) -> bool {
    let dj = def_of(defs, p[j]);
    let di = def_of(defs, p[i]);
    &&& j != i
    &&& di.family is Some
    &&& dj.family == di.family
    &&& (dj.priority > di.priority || (dj.priority == di.priority && j < i))
}

/// Entry `i` of `p` survives variant collapse.
pub open spec fn kept(defs: Seq<RomDescriptor>, p: Seq<Seq<char>>, i: int) -> bool {
    forall|j: int| 0 <= j < p.len() ==> !#[trigger] displaces(defs, p, j, i)
}

/// The entries among the first `n` of `p` that survive variant collapse, in order.
pub open spec fn collapse(defs: Seq<RomDescriptor>, p: Seq<Seq<char>>, n: int) -> Seq<Seq<char>>
    decreases n,
{
    if n <= 0 {
        Seq::empty()
    } else if kept(defs, p, n - 1) {
        collapse(defs, p, n - 1).push(p[n - 1])
    } else {
        collapse(defs, p, n - 1)
    }
}

/// The entries of `set` that are materialized: found ones, after variant collapse.
pub open spec fn final_ids(
    defs: Seq<RomDescriptor>,
    set: RomSet,
    found: Map<Seq<char>, Seq<char>>,
) -> Seq<Seq<char>> {
    let p = present_ids(set_ids(set), found);
    collapse(defs, p, p.len() as int)
}

} // verus!
