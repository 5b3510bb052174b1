//! Properties of resolution and loading, stated over the spec functions that
//! the operations' contracts use.
use vstd::prelude::*;
use crate::catalog::{RomDescriptor, RomSet, MachineType, def_of, set_ids};
use crate::resolve::{
    is_candidate, is_chosen, outranks, present_ids, kept, displaces, collapse,
    final_ids,
};
use crate::active::{merge_table, merged_checkpoints};

verus! {

/// Resolution is deterministic: for the same catalog, registry, profile and
/// scan, at most one bundle is chosen, and so one list of entries.
pub proof fn lemma_resolution_deterministic(
    defs: Seq<RomDescriptor>,
    sets: Seq<RomSet>,
    profile: MachineType,
    found: Map<Seq<char>, Seq<char>>,
    i: int,
    j: int,
)
    requires
        is_chosen(defs, sets, profile, found, i),
        is_chosen(defs, sets, profile, found, j),
    ensures
        i == j,
        final_ids(defs, sets[i], found) == final_ids(defs, sets[j], found),
{
    if i != j {
        assert(is_candidate(defs, sets, profile, found, j));
        assert(is_candidate(defs, sets, profile, found, i));
        assert(!outranks(sets, j, i));
        assert(!outranks(sets, i, j));
    }
}

/// Of two complete bundles for the profile, one with strictly higher priority
/// is preferred, and with equal priority the one declared first.
pub proof fn lemma_priority_order(
    defs: Seq<RomDescriptor>,
    sets: Seq<RomSet>,
    profile: MachineType,
    found: Map<Seq<char>, Seq<char>>,
    i: int,
    j: int,
    c: int,
)
    requires
        is_candidate(defs, sets, profile, found, i),
        is_candidate(defs, sets, profile, found, j),
        is_chosen(defs, sets, profile, found, c),
    ensures
        sets[i].priority > sets[j].priority ==> c != j,
        sets[i].priority == sets[j].priority && i < j ==> c != j,
{
    if c == j && i != j {
        assert(!outranks(sets, i, j));
    }
}

/// Taking away a required entry of the chosen bundle makes that bundle
/// incomplete; whatever is chosen afterwards was complete before and ranks
/// below it. (When no bundle is left complete, `resolve` fails.)
pub proof fn lemma_required_entry_removed(
    defs: Seq<RomDescriptor>,
    sets: Seq<RomSet>,
    profile: MachineType,
    found: Map<Seq<char>, Seq<char>>,
    w: int,
    k: int,
)
    requires
        is_chosen(defs, sets, profile, found, w),
        0 <= k < sets[w].roms.len(),
        !def_of(defs, sets[w].roms@[k]@).optional,
    ensures
        !is_candidate(defs, sets, profile, found.remove(sets[w].roms@[k]@), w),
        forall|c: int|
            #[trigger] is_candidate(defs, sets, profile, found.remove(sets[w].roms@[k]@), c)
                ==> is_candidate(defs, sets, profile, found, c),
        forall|c: int|
            #[trigger] is_chosen(defs, sets, profile, found.remove(sets[w].roms@[k]@), c) ==> c
                != w && outranks(sets, w, c),
{
    let id = sets[w].roms@[k]@;
    let less = found.remove(id);
    assert(!less.contains_key(sets[w].roms@[k]@));
    assert forall|c: int| #[trigger] is_candidate(defs, sets, profile, less, c) implies is_candidate(
        defs,
        sets,
        profile,
        found,
        c,
    ) by {
        assert forall|l: int|
            0 <= l < sets[c].roms.len() && !def_of(defs, #[trigger] sets[c].roms@[l]@).optional
            implies found.contains_key(sets[c].roms@[l]@) by {
            assert(less.contains_key(sets[c].roms@[l]@));
        }
    }
    assert forall|c: int| #[trigger] is_chosen(defs, sets, profile, less, c) implies c != w
        && outranks(sets, w, c) by {
        assert(is_candidate(defs, sets, profile, less, c));
        assert(is_candidate(defs, sets, profile, found, c));
        assert(c != w);
        assert(!outranks(sets, c, w));
    }
}

proof fn lemma_collapse_sound(defs: Seq<RomDescriptor>, p: Seq<Seq<char>>, n: int, x: Seq<char>)
    requires
        0 <= n <= p.len(),
        collapse(defs, p, n).contains(x),
    ensures
        exists|k: int| 0 <= k < n && kept(defs, p, k) && p[k] == x,
    decreases n,
{
    if n > 0 {
        let prev = collapse(defs, p, n - 1);
        if kept(defs, p, n - 1) && x == p[n - 1] {
        } else {
            if kept(defs, p, n - 1) {
                let q = prev.push(p[n - 1]);
                let i = choose|i: int| 0 <= i < q.len() && #[trigger] q[i] == x;
                assert(prev[i] == x);
            }
            lemma_collapse_sound(defs, p, n - 1, x);
        }
    }
}

proof fn lemma_collapse_complete(defs: Seq<RomDescriptor>, p: Seq<Seq<char>>, n: int, k: int)
    requires
        0 <= k < n <= p.len(),
        kept(defs, p, k),
    ensures
        collapse(defs, p, n).contains(p[k]),
    decreases n,
{
    let prev = collapse(defs, p, n - 1);
    if k == n - 1 {
        assert(prev.push(p[k])[prev.len() as int] == p[k]);
    } else {
        lemma_collapse_complete(defs, p, n - 1, k);
        let i = choose|i: int| 0 <= i < prev.len() && prev[i] == p[k];
        if kept(defs, p, n - 1) {
            assert(prev.push(p[n - 1])[i] == p[k]);
        }
    }
}

proof fn lemma_first_index(p: Seq<Seq<char>>, x: Seq<char>, k: int)
    requires
        0 <= k < p.len(),
        p[k] == x,
    ensures
        exists|f: int| 0 <= f <= k && p[f] == x && forall|j: int| 0 <= j < f ==> p[j] != x,
    decreases k,
{
    if exists|j: int| 0 <= j < k && p[j] == x {
        let j = choose|j: int| 0 <= j < k && p[j] == x;
        lemma_first_index(p, x, j);
    }
}

/// Variant collapse: of two found entries of a bundle in the same family with
/// different priorities, the lower-priority one is never materialized; and
/// when they are the only found members of that family, the higher one is.
pub proof fn lemma_variant_collapse(
    defs: Seq<RomDescriptor>,
    set: RomSet,
    found: Map<Seq<char>, Seq<char>>,
    a: Seq<char>,
    b: Seq<char>,
)
    requires
        set_ids(set).contains(a),
        set_ids(set).contains(b),
        found.contains_key(a),
        found.contains_key(b),
        def_of(defs, a).family is Some,
        def_of(defs, b).family == def_of(defs, a).family,
        def_of(defs, a).priority < def_of(defs, b).priority,
    ensures
        !final_ids(defs, set, found).contains(a),
        (forall|x: Seq<char>|
            #[trigger] set_ids(set).contains(x) && found.contains_key(x) && def_of(defs, x).family
                == def_of(defs, a).family ==> x == a || x == b) ==> final_ids(defs, set, found).contains(b),
{
    let ids = set_ids(set);
    let pred = |id: Seq<char>| found.contains_key(id);
    let p = present_ids(ids, found);
    let ia = choose|i: int| 0 <= i < ids.len() && ids[i] == a;
    let ib = choose|i: int| 0 <= i < ids.len() && ids[i] == b;
    ids.lemma_filter_contains(pred, ia);
    ids.lemma_filter_contains(pred, ib);
    assert(p == ids.filter(pred));
    let jb = choose|j: int| 0 <= j < p.len() && p[j] == b;
    if final_ids(defs, set, found).contains(a) {
        lemma_collapse_sound(defs, p, p.len() as int, a);
        let k = choose|k: int| 0 <= k < p.len() && kept(defs, p, k) && p[k] == a;
        assert(displaces(defs, p, jb, k));
    }
    if forall|x: Seq<char>|
        #[trigger] ids.contains(x) && found.contains_key(x) && def_of(defs, x).family == def_of(
            defs,
            a,
        ).family ==> x == a || x == b {
        lemma_first_index(p, b, jb);
        let f = choose|f: int| 0 <= f <= jb && p[f] == b && forall|j: int| 0 <= j < f ==> p[j] != b;
        assert forall|j: int| 0 <= j < p.len() implies !#[trigger] displaces(defs, p, j, f) by {
            if displaces(defs, p, j, f) {
                assert(p.contains(p[j]));
                ids.lemma_filter_contains_rev(pred, p[j]);
                ids.lemma_filter_pred(pred, j);
                assert(ids.contains(p[j]) && found.contains_key(p[j]));
            }
        }
        lemma_collapse_complete(defs, p, p.len() as int, f);
    }
}

proof fn lemma_merge_table_source(m: Map<usize, String>, cps: Seq<(usize, String)>, addr: usize)
    requires
        merge_table(m, cps).contains_key(addr),
    ensures
        (m.contains_key(addr) && merge_table(m, cps)[addr] == m[addr]) || exists|c: int|
            0 <= c < cps.len() && cps[c].0 == addr && cps[c].1 == merge_table(m, cps)[addr],
    decreases cps.len(),
{
    if cps.len() > 0 && cps.last().0 != addr {
        let t = cps.drop_last();
        lemma_merge_table_source(m, t, addr);
        if !(m.contains_key(addr) && merge_table(m, t)[addr] == m[addr]) {
            let c = choose|c: int|
                0 <= c < t.len() && t[c].0 == addr && t[c].1 == merge_table(m, t)[addr];
            assert(cps[c] == t[c]);
        }
    } else if cps.len() > 0 {
        assert(cps[cps.len() - 1].0 == addr);
    }
}

/// Checkpoint scoping: every label in the merged table of a list of entries
/// is the label one of those entries gives its address.
pub proof fn lemma_checkpoint_scope(ds: Seq<RomDescriptor>, addr: usize)
    requires
        merged_checkpoints(ds).contains_key(addr),
    ensures
        exists|k: int, c: int|
            0 <= k < ds.len() && 0 <= c < ds[k].checkpoints@.len() && #[trigger] ds[k].checkpoints@[c]
                == (addr, merged_checkpoints(ds)[addr]),
    decreases ds.len(),
{
    let t = ds.drop_last();
    let cps = ds.last().checkpoints@;
    lemma_merge_table_source(merged_checkpoints(t), cps, addr);
    if merged_checkpoints(t).contains_key(addr) && merged_checkpoints(ds)[addr] == merged_checkpoints(
        t,
    )[addr] {
        lemma_checkpoint_scope(t, addr);
        let (k, c) = choose|k: int, c: int|
            0 <= k < t.len() && 0 <= c < t[k].checkpoints@.len() && #[trigger] t[k].checkpoints@[c]
                == (addr, merged_checkpoints(t)[addr]);
        assert(ds[k] == t[k]);
        assert(ds[k].checkpoints@[c] == (addr, merged_checkpoints(ds)[addr]));
    } else {
        let c = choose|c: int|
            0 <= c < cps.len() && cps[c].0 == addr && cps[c].1 == merged_checkpoints(ds)[addr];
        assert(ds[ds.len() - 1].checkpoints@[c] == (addr, merged_checkpoints(ds)[addr]));
    }
}

} // verus!
