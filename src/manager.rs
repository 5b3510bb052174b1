//! The ROM manager: holds the catalog and registry for one hardware profile,
//! records scanned files, resolves the best bundle and keeps the active set.
use vstd::prelude::*;
use std::collections::HashMap;
use crate::catalog::{
    RomError, MachineType, RomDescriptor, RomPatch, RomSet, RomType, find_def, has_def, def_of, ids_unique,
    registry_wf, set_ids, lemma_def_of_index, sets_resolve,
};
use crate::builtin::{builtin_tables, is_builtin};
use crate::scan::{ScanResult, md5_hex, md5_hex_of};
use crate::active::{
    RomRegion, descs_of, image_bad, all_images_good, load_error, image_views, merge_table,
    merged_checkpoints, patch_view, patch_writes, has_basic_entry,
};
use crate::laws::lemma_checkpoint_scope;
use crate::resolve::{
    strs, set_complete, is_candidate, outranks, is_chosen, any_candidate, is_top,
    missing_required, present_ids, displaces, collapse, final_ids,
};

verus! {

/// The outcome of resolution: the chosen bundle (its registry index) and the
/// identities to materialize, in bundle order.
pub struct Resolution {
    pub bundle: usize,
    pub roms: Vec<String>,
}

/// A loaded firmware set: the chosen bundle, the identities mapped (with
/// their catalog indices), their verified bytes, and the merged checkpoint
/// table. Built whole by `RomManager::load` and never edited.
pub struct ActiveImageSet {
    bundle: usize,
    roms: Vec<String>,
    idx: Vec<usize>,
    images: Vec<Vec<u8>>,
    checkpoints: HashMap<usize, String>,
    have_basic: bool,
}

impl ActiveImageSet {
    pub closed spec fn bundle(self) -> int {
        self.bundle as int
    }

    pub closed spec fn roms(self) -> Seq<Seq<char>> {
        strs(self.roms@)
    }

    pub closed spec fn images(self) -> Seq<Seq<u8>> {
        self.images@.map_values(|v: Vec<u8>| v@)
    }

    pub closed spec fn checkpoint_map(self) -> Map<usize, String> {
        self.checkpoints@
    }

    pub closed spec fn basic(self) -> bool {
        self.have_basic
    }
}

/// Firmware manager for one hardware profile. The catalog and registry are
/// fixed at construction; only the active set is replaced, whole, by `load`.
pub struct RomManager {
    machine_type: MachineType,
    rom_defs: Vec<RomDescriptor>,
    rom_sets: Vec<RomSet>,
    active: Option<ActiveImageSet>,
}

impl RomManager {
    pub closed spec fn defs(self) -> Seq<RomDescriptor> {
        self.rom_defs@
    }

    pub closed spec fn sets(self) -> Seq<RomSet> {
        self.rom_sets@
    }

    pub closed spec fn profile(self) -> MachineType {
        self.machine_type
    }

    /// The active firmware set, if one was loaded.
    pub closed spec fn active(self) -> Option<ActiveImageSet> {
        self.active
    }

    /// The active set agrees with the catalog: its index table, its merged
    /// checkpoint table and its BASIC flag are those of its catalog entries.
    pub closed spec fn active_ok(self) -> bool {
        self.active matches Some(a) ==> {
            &&& a.idx.len() == a.roms.len()
            &&& a.images.len() == a.roms.len()
            &&& forall|k: int|
                0 <= k < a.roms.len() ==> a.idx@[k] < self.rom_defs.len()
                    && self.rom_defs@[a.idx@[k] as int] == def_of(self.rom_defs@, #[trigger] a.roms@[k]@)
            &&& a.checkpoints@ == merged_checkpoints(descs_of(self.rom_defs@, strs(a.roms@)))
            &&& a.have_basic == has_basic_entry(descs_of(self.rom_defs@, strs(a.roms@)))
        }
    }

    pub open spec fn wf(self) -> bool {
        registry_wf(self.defs(), self.sets()) && self.active_ok()
    }

    /// The catalog entries of the active set, in order.
    pub open spec fn active_descs(self) -> Seq<RomDescriptor> {
        descs_of(self.defs(), self.active().unwrap().roms())
    }

    /// What recording a file with identity `id` found at `path` does to a scan.
    pub open spec fn recorded(
        self,
        found: Map<Seq<char>, Seq<char>>,
        id: Seq<char>,
        path: Seq<char>,
    ) -> Map<Seq<char>, Seq<char>> {
        if has_def(self.defs(), id) && def_of(self.defs(), id).machine_type == self.profile() {
            found.insert(id, path)
        } else {
            found
        }
    }

    /// A manager for `machine_type` over the built-in catalog and registry.
    pub fn new(machine_type: MachineType) -> (r: RomManager)
        ensures
            r.wf(),
            is_builtin(r.defs(), r.sets()),
            r.profile() == machine_type,
            r.active() is None,
    {
        let (rom_defs, rom_sets) = builtin_tables();
        RomManager { machine_type, rom_defs, rom_sets, active: None }
    }

    /// Builds a manager over the given catalog and registry for `machine_type`.
    /// Returns `None` when an identity is listed twice in the catalog, or a
    /// bundle names an identity that is not in the catalog or names one twice.
    pub fn with_tables(
        machine_type: MachineType,
        rom_defs: Vec<RomDescriptor>,
        rom_sets: Vec<RomSet>,
    ) -> (r: Option<RomManager>)
        ensures
            r is Some <==> registry_wf(rom_defs@, rom_sets@),
            r matches Some(m) ==> m.wf() && m.defs() == rom_defs@ && m.sets() == rom_sets@
                && m.profile() == machine_type && m.active() is None,
    {
        if !catalog_ids_unique(&rom_defs) || !sets_refer_to(&rom_defs, &rom_sets) {
            return None;
        }
        Some(RomManager { machine_type, rom_defs, rom_sets, active: None })
    }

    /// The catalog entry with identity `key`.
    pub fn get_romdesc(&self, key: &str) -> (r: Option<&RomDescriptor>)
        requires
            self.wf(),
        ensures
            match r {
                Some(d) => has_def(self.defs(), key@) && *d == def_of(self.defs(), key@),
                None => !has_def(self.defs(), key@),
            },
    {
        let id = key.to_owned();
        match find_def(&self.rom_defs, &id) {
            Some(i) => {
                proof {
                    lemma_def_of_index(self.rom_defs@, i as int);
                }
                Some(&self.rom_defs[i])
            },
            None => None,
        }
    }

    /// Index in the catalog of an identity known to be there.
    fn def_index(&self, id: &String) -> (i: usize)
        requires
            self.wf(),
            has_def(self.defs(), id@),
        ensures
            i < self.defs().len(),
            self.defs()[i as int] == def_of(self.defs(), id@),
            self.defs()[i as int].md5@ == id@,
    {
        match find_def(&self.rom_defs, id) {
            Some(i) => {
                proof {
                    lemma_def_of_index(self.rom_defs@, i as int);
                }
                i
            },
            None => 0,
        }
    }

    /// Records a file whose content has identity `digest`: it counts when the
    /// identity is in the catalog and belongs to this manager's profile.
    pub fn record_digest(&self, scan: &mut ScanResult, digest: &String, path: String)
        requires
            self.wf(),
        ensures
            final(scan)@ == self.recorded(old(scan)@, digest@, path@),
    {
        match find_def(&self.rom_defs, digest) {
            Some(i) => {
                proof {
                    lemma_def_of_index(self.rom_defs@, i as int);
                }
                if self.rom_defs[i].machine_type == self.machine_type {
                    scan.insert(digest.clone(), path);
                }
            },
            None => {},
        }
    }

    /// Identifies a file by the MD5 digest of its bytes and records it.
    pub fn scan_file(&self, scan: &mut ScanResult, path: String, data: &[u8])
        requires
            self.wf(),
        ensures
            final(scan)@ == self.recorded(old(scan)@, md5_hex_of(data@), path@),
    {
        let digest = md5_hex(data);
        self.record_digest(scan, &digest, path);
    }

    /// What a failed resolution reports: the profile, and the required
    /// identities missing from the best-ranked bundle of the profile (none if
    /// the profile has no bundle).
    pub open spec fn reports_missing(self, found: Map<Seq<char>, Seq<char>>, e: RomError) -> bool {
        &&& e matches RomError::RomNotFoundForMachine { machine_type, missing }
        &&& machine_type == self.profile()
        &&& ({
            ||| exists|t: int|
                is_top(self.sets(), self.profile(), t) && strs(missing@) == missing_required(
                    self.defs(),
                    set_ids(#[trigger] self.sets()[t]),
                    found,
                )
            ||| missing@.len() == 0 && forall|j: int|
                0 <= j < self.sets().len() ==> #[trigger] self.sets()[j].machine_type
                    != self.profile()
        })
    }

    /// Picks the best complete bundle for the profile and the entries of it to
    /// materialize: those found, keeping per variant family only the highest
    /// priority one.
    pub fn resolve(&self, scan: &ScanResult) -> (r: Result<Resolution, RomError>)
        requires
            self.wf(),
        ensures
            match r {
                Ok(res) => is_chosen(self.defs(), self.sets(), self.profile(), scan@, res.bundle as int)
                    && strs(res.roms@) == final_ids(self.defs(), self.sets()[res.bundle as int], scan@)
                    && forall|k: int| 0 <= k < res.roms.len() ==> has_def(self.defs(), #[trigger] res.roms@[k]@),
                Err(e) => !any_candidate(self.defs(), self.sets(), self.profile(), scan@)
                    && self.reports_missing(scan@, e),
            },
    {
        match self.best_set(scan, true) {
            Some(b) => {
                let (present, idx) = self.present_of(b, scan);
                let roms = self.collapse_present(&present, &idx);
                Ok(Resolution { bundle: b, roms })
            },
            None => {
                let missing = match self.best_set(scan, false) {
                    Some(t) => self.missing_of(t, scan),
                    None => Vec::new(),
                };
                Err(RomError::RomNotFoundForMachine { machine_type: self.machine_type, missing })
            },
        }
    }

    /// The identities of bundle `s` that were found, with their catalog indices.
    fn present_of(&self, s: usize, scan: &ScanResult) -> (r: (Vec<String>, Vec<usize>))
        requires
            self.wf(),
            s < self.sets().len(),
        ensures
            strs(r.0@) == present_ids(set_ids(self.sets()[s as int]), scan@),
            r.1.len() == r.0.len(),
            forall|k: int|
                0 <= k < r.0.len() ==> r.1@[k] < self.defs().len() && self.defs()[r.1@[k] as int]
                    == def_of(self.defs(), #[trigger] r.0@[k]@) && has_def(self.defs(), r.0@[k]@),
    {
        let set = &self.rom_sets[s];
        let ghost ids = set_ids(*set);
        let mut out: Vec<String> = Vec::new();
        let mut idx: Vec<usize> = Vec::new();
        let mut k: usize = 0;
        while k < set.roms.len()
            invariant
                self.wf(),
                s < self.sets().len(),
                *set == self.sets()[s as int],
                ids == set_ids(*set),
                k <= set.roms.len(),
                strs(out@) == present_ids(ids.subrange(0, k as int), scan@),
                idx.len() == out.len(),
                forall|l: int|
                    0 <= l < out.len() ==> idx@[l] < self.defs().len() && self.defs()[idx@[l] as int]
                        == def_of(self.defs(), #[trigger] out@[l]@) && has_def(self.defs(), out@[l]@),
            decreases set.roms.len() - k,
        {
            proof {
                reveal(Seq::filter);
            }
            let ghost pre = ids.subrange(0, k + 1);
            assert(pre.drop_last() =~= ids.subrange(0, k as int));
            assert(pre.last() == set.roms@[k as int]@);
            if scan.contains(&set.roms[k]) {
                assert(has_def(self.defs(), set.roms@[k as int]@));
                let i = self.def_index(&set.roms[k]);
                let id = set.roms[k].clone();
                let ghost before = out@;
                out.push(id);
                idx.push(i);
                assert(strs(out@) =~= strs(before).push(set.roms@[k as int]@));
            }
            k = k + 1;
        }
        assert(ids.subrange(0, set.roms.len() as int) =~= ids);
        (out, idx)
    }

    /// The required identities of bundle `s` that were not found.
    fn missing_of(&self, s: usize, scan: &ScanResult) -> (r: Vec<String>)
        requires
            self.wf(),
            s < self.sets().len(),
        ensures
            strs(r@) == missing_required(self.defs(), set_ids(self.sets()[s as int]), scan@),
    {
        let set = &self.rom_sets[s];
        let ghost ids = set_ids(*set);
        let mut out: Vec<String> = Vec::new();
        let mut k: usize = 0;
        while k < set.roms.len()
            invariant
                self.wf(),
                s < self.sets().len(),
                *set == self.sets()[s as int],
                ids == set_ids(*set),
                k <= set.roms.len(),
                strs(out@) == missing_required(self.defs(), ids.subrange(0, k as int), scan@),
            decreases set.roms.len() - k,
        {
            proof {
                reveal(Seq::filter);
            }
            let ghost pre = ids.subrange(0, k + 1);
            assert(pre.drop_last() =~= ids.subrange(0, k as int));
            assert(pre.last() == set.roms@[k as int]@);
            assert(has_def(self.defs(), set.roms@[k as int]@));
            let i = self.def_index(&set.roms[k]);
            if !self.rom_defs[i].optional && !scan.contains(&set.roms[k]) {
                let id = set.roms[k].clone();
                let ghost before = out@;
                out.push(id);
                assert(strs(out@) =~= strs(before).push(set.roms@[k as int]@));
            }
            k = k + 1;
        }
        assert(ids.subrange(0, set.roms.len() as int) =~= ids);
        out
    }

    /// Variant collapse over the found identities `p` (with catalog indices `idx`).
    fn collapse_present(&self, p: &Vec<String>, idx: &Vec<usize>) -> (r: Vec<String>)
        requires
            self.wf(),
            idx.len() == p.len(),
            forall|k: int|
                0 <= k < p.len() ==> idx@[k] < self.defs().len() && self.defs()[idx@[k] as int]
                    == def_of(self.defs(), #[trigger] p@[k]@) && has_def(self.defs(), p@[k]@),
        ensures
            strs(r@) == collapse(self.defs(), strs(p@), p.len() as int),
            forall|k: int| 0 <= k < r.len() ==> has_def(self.defs(), #[trigger] r@[k]@),
    {
        let ghost defs = self.defs();
        let ghost ps = strs(p@);
        let mut out: Vec<String> = Vec::new();
        let mut i: usize = 0;
        while i < p.len()
            invariant
                defs == self.defs(),
                ps == strs(p@),
                idx.len() == p.len(),
                forall|k: int|
                    0 <= k < p.len() ==> idx@[k] < defs.len() && defs[idx@[k] as int] == def_of(
                        defs,
                        #[trigger] p@[k]@,
                    ) && has_def(defs, p@[k]@),
                i <= p.len(),
                strs(out@) == collapse(defs, ps, i as int),
                forall|k: int| 0 <= k < out.len() ==> has_def(defs, #[trigger] out@[k]@),
            decreases p.len() - i,
        {
            let di = &self.rom_defs[idx[i]];
            assert(*di == def_of(defs, ps[i as int]));
            let mut keep = true;
            let mut j: usize = 0;
            while j < p.len()
                invariant
                    defs == self.defs(),
                    ps == strs(p@),
                    idx.len() == p.len(),
                    forall|k: int|
                        0 <= k < p.len() ==> idx@[k] < defs.len() && defs[idx@[k] as int]
                            == def_of(defs, #[trigger] p@[k]@),
                    i < p.len(),
                    *di == def_of(defs, ps[i as int]),
                    j <= p.len(),
                    keep <==> forall|l: int| 0 <= l < j ==> !#[trigger] displaces(defs, ps, l, i as int),
                decreases p.len() - j,
            {
                let dj = &self.rom_defs[idx[j]];
                assert(*dj == def_of(defs, ps[j as int]));
                let beaten = j != i && match (di.family, dj.family) {
                    (Some(a), Some(b)) => a == b && (dj.priority > di.priority || (dj.priority
                        == di.priority && j < i)),
                    _ => false,
                };
                if beaten {
                    keep = false;
                }
                assert(beaten == displaces(defs, ps, j as int, i as int));
                j = j + 1;
            }
            if keep {
                let ghost before = out@;
                out.push(p[i].clone());
                assert(strs(out@) =~= strs(before).push(ps[i as int]));
            }
            i = i + 1;
        }
        out
    }

    /// Loads a resolution: `images[k]` holds the bytes read for `res.roms[k]`,
    /// or `None` where the read failed. Every image must have been read and
    /// have its catalog size; then the new active set replaces the old one.
    /// On failure the previous active set stays in place.
    pub fn load(&mut self, res: &Resolution, images: Vec<Option<Vec<u8>>>) -> (r: Result<(), RomError>)
        requires
            old(self).wf(),
            images.len() == res.roms.len(),
            forall|k: int| 0 <= k < res.roms.len() ==> has_def(old(self).defs(), #[trigger] res.roms@[k]@),
        ensures
            final(self).wf(),
            final(self).defs() == old(self).defs(),
            final(self).sets() == old(self).sets(),
            final(self).profile() == old(self).profile(),
            ({
                let ds = descs_of(old(self).defs(), strs(res.roms@));
                match r {
                    Ok(()) => all_images_good(ds, images@) && (final(self).active() matches Some(a)
                        && a.bundle() == res.bundle && a.roms() == strs(res.roms@) && a.images()
                        == image_views(images@) && a.checkpoint_map() == merged_checkpoints(ds)
                        && a.basic() == has_basic_entry(ds)),
                    Err(e) => !all_images_good(ds, images@) && load_error(ds, strs(res.roms@), images@, e)
                        && final(self).active() == old(self).active(),
                }
            }),
    {
        let ghost defs = self.defs();
        let ghost ids = strs(res.roms@);
        let ghost ds = descs_of(defs, ids);
        let n = res.roms.len();
        // catalog index of each selected identity
        let mut idx: Vec<usize> = Vec::new();
        let mut k: usize = 0;
        while k < n
            invariant
                self.wf(),
                defs == self.defs(),
                ids == strs(res.roms@),
                ds == descs_of(defs, ids),
                n == res.roms.len(),
                forall|j: int| 0 <= j < n ==> has_def(defs, #[trigger] res.roms@[j]@),
                k <= n,
                idx.len() == k,
                forall|j: int| 0 <= j < k ==> #[trigger] idx@[j] < defs.len() && defs[idx@[j] as int] == ds[j],
            decreases n - k,
        {
            let i = self.def_index(&res.roms[k]);
            assert(ds[k as int] == def_of(defs, res.roms@[k as int]@));
            idx.push(i);
            k = k + 1;
        }
        // every image present, with its declared size
        let mut k: usize = 0;
        while k < n
            invariant
                self.wf(),
                defs == self.defs(),
                ids == strs(res.roms@),
                ds == descs_of(defs, ids),
                n == res.roms.len(),
                n == images.len(),
                idx.len() == n,
                forall|j: int| 0 <= j < n ==> #[trigger] idx@[j] < defs.len() && defs[idx@[j] as int] == ds[j],
                k <= n,
                forall|j: int| 0 <= j < k ==> !#[trigger] image_bad(ds[j], images@[j]),
            decreases n - k,
        {
            let d = &self.rom_defs[idx[k]];
            assert(image_bad(ds[k as int], images@[k as int]) ==> !all_images_good(ds, images@));
            match &images[k] {
                None => {
                    let e = RomError::FileNotFound { md5: res.roms[k].clone() };
                    assert(image_bad(ds[k as int], images@[k as int]));
                    assert(ids[k as int] == res.roms@[k as int]@);
                    assert(load_error(ds, ids, images@, e));
                    return Err(e);
                },
                Some(v) => {
                    if v.len() != d.size {
                        let e = RomError::SizeMismatch {
                            md5: res.roms[k].clone(),
                            expected: d.size,
                            found: v.len(),
                        };
                        assert(image_bad(ds[k as int], images@[k as int]));
                        assert(ids[k as int] == res.roms@[k as int]@);
                        assert(load_error(ds, ids, images@, e));
                        return Err(e);
                    }
                },
            }
            k = k + 1;
        }
        assert forall|j: int| 0 <= j < n implies (#[trigger] images@[j]) is Some by {
            assert(!image_bad(ds[j], images@[j]));
        }
        // copy the verified bytes
        let mut bytes: Vec<Vec<u8>> = Vec::new();
        let mut k: usize = 0;
        while k < n
            invariant
                n == images.len(),
                forall|j: int| 0 <= j < n ==> (#[trigger] images@[j]) is Some,
                k <= n,
                bytes.len() == k,
                forall|j: int| 0 <= j < k ==> #[trigger] bytes@[j]@ == images@[j].unwrap()@,
            decreases n - k,
        {
            match &images[k] {
                Some(v) => {
                    let c = v.clone();
                    assert(c@ =~= v@);
                    bytes.push(c);
                },
                None => {
                    bytes.push(Vec::new());
                },
            }
            k = k + 1;
        }
        assert(bytes@.map_values(|v: Vec<u8>| v@) =~= image_views(images@));
        let checkpoints = self.merge_checkpoints(&idx, Ghost(ds));
        let have_basic = self.any_basic(&idx, Ghost(ds));
        let mut roms: Vec<String> = Vec::new();
        let mut k: usize = 0;
        while k < n
            invariant
                n == res.roms.len(),
                k <= n,
                roms@ == res.roms@.subrange(0, k as int),
            decreases n - k,
        {
            roms.push(res.roms[k].clone());
            assert(roms@ =~= res.roms@.subrange(0, k + 1));
            k = k + 1;
        }
        assert(roms@ =~= res.roms@);
        self.active = Some(
            ActiveImageSet { bundle: res.bundle, roms, idx, images: bytes, checkpoints, have_basic },
        );
        Ok(())
    }

    /// Checkpoint scoping: every label the active set's table gives an
    /// address is the label one of the active set's own catalog entries gives it.
    pub proof fn lemma_checkpoint_lookup_scoped(self, addr: usize)
        requires
            self.wf(),
            self.active() is Some,
            self.active().unwrap().checkpoint_map().contains_key(addr),
        ensures
            exists|k: int, c: int|
                0 <= k < self.active_descs().len() && 0 <= c < self.active_descs()[k].checkpoints@.len()
                    && #[trigger] self.active_descs()[k].checkpoints@[c] == (
                    addr,
                    self.active().unwrap().checkpoint_map()[addr],
                ),
    {
        lemma_checkpoint_scope(self.active_descs(), addr);
    }

    /// Whether the active set holds a BASIC interpreter image.
    pub fn has_basic(&self) -> (r: bool)
        requires
            self.wf(),
        ensures
            r == (self.active() is Some && has_basic_entry(self.active_descs())),
    {
        match &self.active {
            Some(a) => a.have_basic,
            None => false,
        }
    }

    /// The label of the checkpoint at `addr` in the active set.
    pub fn get_checkpoint(&self, addr: usize) -> (r: Option<&String>)
        ensures
            match self.active() {
                None => r is None,
                Some(a) => match r {
                    Some(l) => a.checkpoint_map().contains_key(addr) && *l == a.checkpoint_map()[addr],
                    None => !a.checkpoint_map().contains_key(addr),
                },
            },
    {
        match &self.active {
            Some(a) => a.checkpoints.get(&addr),
            None => None,
        }
    }

    /// The regions to map for the active set, in order: each image's bytes at
    /// its catalog address, with its access cost, read-only. `None` when no
    /// set is active.
    pub fn copy_into_memory(&self) -> (r: Option<Vec<RomRegion>>)
        requires
            self.wf(),
        ensures
            r is None <==> self.active() is None,
            r matches Some(v) ==> {
                let a = self.active().unwrap();
                let ds = self.active_descs();
                &&& v.len() == a.roms().len()
                &&& forall|k: int|
                    0 <= k < v.len() ==> (#[trigger] v@[k]).bytes@ == a.images()[k] && v@[k].address
                        == ds[k].address && v@[k].cycle_cost == ds[k].cycle_cost && v@[k].read_only
            },
    {
        match &self.active {
            None => None,
            Some(a) => {
                let ghost ds = self.active_descs();
                let mut out: Vec<RomRegion> = Vec::new();
                let mut k: usize = 0;
                while k < a.roms.len()
                    invariant
                        self.wf(),
                        self.active() == Some(*a),
                        ds == self.active_descs(),
                        k <= a.roms.len(),
                        out.len() == k,
                        forall|j: int|
                            0 <= j < k ==> (#[trigger] out@[j]).bytes@ == a.images()[j]
                                && out@[j].address == ds[j].address && out@[j].cycle_cost
                                == ds[j].cycle_cost && out@[j].read_only,
                    decreases a.roms.len() - k,
                {
                    let d = &self.rom_defs[a.idx[k]];
                    assert(*d == ds[k as int]);
                    let bytes = a.images[k].clone();
                    assert(bytes@ =~= a.images@[k as int]@);
                    out.push(RomRegion { bytes, address: d.address, cycle_cost: d.cycle_cost, read_only: true });
                    k = k + 1;
                }
                Some(out)
            },
        }
    }

    /// The patch writes for the active set: each entry's patches, in order.
    /// Empty when no set is active.
    pub fn install_patches(&self) -> (r: Vec<RomPatch>)
        requires
            self.wf(),
        ensures
            self.active() is None ==> r.len() == 0,
            self.active() is Some ==> r@.map_values(|p: RomPatch| patch_view(p)) == patch_writes(
                self.active_descs(),
            ),
    {
        match &self.active {
            None => Vec::new(),
            Some(a) => {
                let ghost ds = self.active_descs();
                let mut out: Vec<RomPatch> = Vec::new();
                let mut k: usize = 0;
                while k < a.roms.len()
                    invariant
                        self.wf(),
                        self.active() == Some(*a),
                        ds == self.active_descs(),
                        k <= a.roms.len(),
                        out@.map_values(|p: RomPatch| patch_view(p)) == patch_writes(ds.subrange(0, k as int)),
                    decreases a.roms.len() - k,
                {
                    let d = &self.rom_defs[a.idx[k]];
                    assert(*d == ds[k as int]);
                    let ghost base = out@.map_values(|p: RomPatch| patch_view(p));
                    let mut c: usize = 0;
                    while c < d.patches.len()
                        invariant
                            c <= d.patches.len(),
                            out@.map_values(|p: RomPatch| patch_view(p)) == base + d.patches@.subrange(
                                0,
                                c as int,
                            ).map_values(|p: RomPatch| patch_view(p)),
                        decreases d.patches.len() - c,
                    {
                        let p = &d.patches[c];
                        let bytes = p.bytes.clone();
                        assert(bytes@ =~= p.bytes@);
                        let ghost before = out@;
                        out.push(RomPatch { desc: p.desc.clone(), address: p.address, bytes });
                        assert(patch_view(out@[out.len() - 1]) == patch_view(d.patches@[c as int]));
                        assert(out@.map_values(|p: RomPatch| patch_view(p)) =~= before.map_values(
                            |p: RomPatch| patch_view(p),
                        ).push(patch_view(d.patches@[c as int])));
                        assert(d.patches@.subrange(0, c + 1).map_values(|p: RomPatch| patch_view(p))
                            =~= d.patches@.subrange(0, c as int).map_values(|p: RomPatch| patch_view(p)).push(
                            patch_view(d.patches@[c as int]),
                        ));
                        assert(out@.map_values(|p: RomPatch| patch_view(p)) =~= base + d.patches@.subrange(
                            0,
                            c + 1,
                        ).map_values(|p: RomPatch| patch_view(p)));
                        c = c + 1;
                    }
                    assert(d.patches@.subrange(0, d.patches.len() as int) =~= d.patches@);
                    assert(ds.subrange(0, k + 1).drop_last() =~= ds.subrange(0, k as int));
                    k = k + 1;
                }
                assert(ds.subrange(0, a.roms.len() as int) =~= ds);
                out
            },
        }
    }

    /// The union of the checkpoint tables of the entries at catalog indices `idx`.
    fn merge_checkpoints(&self, idx: &Vec<usize>, ds: Ghost<Seq<RomDescriptor>>) -> (r: HashMap<usize, String>)
        requires
            idx.len() == ds@.len(),
            forall|j: int| 0 <= j < idx.len() ==> #[trigger] idx@[j] < self.defs().len() && self.defs()[idx@[j] as int] == ds@[j],
        ensures
            r@ == merged_checkpoints(ds@),
    {
        let mut table: HashMap<usize, String> = HashMap::new();
        let mut k: usize = 0;
        while k < idx.len()
            invariant
                idx.len() == ds@.len(),
                forall|j: int| 0 <= j < idx.len() ==> #[trigger] idx@[j] < self.defs().len() && self.defs()[idx@[j] as int] == ds@[j],
                k <= idx.len(),
                table@ == merged_checkpoints(ds@.subrange(0, k as int)),
            decreases idx.len() - k,
        {
            let cps = &self.rom_defs[idx[k]].checkpoints;
            let ghost base = merged_checkpoints(ds@.subrange(0, k as int));
            let mut c: usize = 0;
            while c < cps.len()
                invariant
                    c <= cps.len(),
                    table@ == merge_table(base, cps@.subrange(0, c as int)),
                decreases cps.len() - c,
            {
                let label = cps[c].1.clone();
                table.insert(cps[c].0, label);
                assert(cps@.subrange(0, c + 1).drop_last() =~= cps@.subrange(0, c as int));
                c = c + 1;
            }
            assert(cps@.subrange(0, cps.len() as int) =~= cps@);
            assert(ds@.subrange(0, k + 1).drop_last() =~= ds@.subrange(0, k as int));
            k = k + 1;
        }
        assert(ds@.subrange(0, idx.len() as int) =~= ds@);
        table
    }

    /// Whether any entry at catalog indices `idx` is a BASIC image.
    fn any_basic(&self, idx: &Vec<usize>, ds: Ghost<Seq<RomDescriptor>>) -> (r: bool)
        requires
            idx.len() == ds@.len(),
            forall|j: int| 0 <= j < idx.len() ==> #[trigger] idx@[j] < self.defs().len() && self.defs()[idx@[j] as int] == ds@[j],
        ensures
            r == has_basic_entry(ds@),
    {
        let mut k: usize = 0;
        while k < idx.len()
            invariant
                idx.len() == ds@.len(),
                forall|j: int| 0 <= j < idx.len() ==> #[trigger] idx@[j] < self.defs().len() && self.defs()[idx@[j] as int] == ds@[j],
                k <= idx.len(),
                forall|j: int| 0 <= j < k ==> #[trigger] ds@[j].rom_type != RomType::BASIC,
            decreases idx.len() - k,
        {
            if self.rom_defs[idx[k]].rom_type == RomType::BASIC {
                assert(ds@[k as int].rom_type == RomType::BASIC);
                return true;
            }
            k = k + 1;
        }
        false
    }

    /// Whether bundle `s` is complete in `scan`.
    fn set_is_complete(&self, s: usize, scan: &ScanResult) -> (r: bool)
        requires
            self.wf(),
            s < self.sets().len(),
        ensures
            r == set_complete(self.defs(), self.sets()[s as int], scan@),
    {
        let set = &self.rom_sets[s];
        let mut k: usize = 0;
        while k < set.roms.len()
            invariant
                self.wf(),
                s < self.sets().len(),
                *set == self.sets()[s as int],
                k <= set.roms.len(),
                forall|l: int|
                    0 <= l < k ==> (!def_of(self.defs(), #[trigger] set.roms@[l]@).optional
                        ==> scan@.contains_key(set.roms@[l]@)),
            decreases set.roms.len() - k,
        {
            assert(has_def(self.defs(), set.roms@[k as int]@));
            let i = self.def_index(&set.roms[k]);
            if !self.rom_defs[i].optional && !scan.contains(&set.roms[k]) {
                return false;
            }
            k = k + 1;
        }
        true
    }

    /// The best-ranked bundle for the profile; with `complete_only`, among complete ones.
    fn best_set(&self, scan: &ScanResult, complete_only: bool) -> (r: Option<usize>)
        requires
            self.wf(),
        ensures
            complete_only ==> match r {
                Some(b) => is_chosen(self.defs(), self.sets(), self.profile(), scan@, b as int),
                None => !any_candidate(self.defs(), self.sets(), self.profile(), scan@),
            },
            !complete_only ==> match r {
                Some(b) => is_top(self.sets(), self.profile(), b as int),
                None => forall|j: int|
                    0 <= j < self.sets().len() ==> #[trigger] self.sets()[j].machine_type
                        != self.profile(),
            },
    {
        let ghost defs = self.defs();
        let ghost sets = self.sets();
        let ghost profile = self.profile();
        let ghost ok = |j: int|
            0 <= j < sets.len() && sets[j].machine_type == profile && (!complete_only
                || set_complete(defs, sets[j], scan@));
        let mut best: Option<usize> = None;
        let mut i: usize = 0;
        while i < self.rom_sets.len()
            invariant
                self.wf(),
                defs == self.defs(),
                sets == self.sets(),
                profile == self.profile(),
                i <= sets.len(),
                forall|j: int|
                    ok(j) <==> 0 <= j < sets.len() && sets[j].machine_type == profile && (
                    !complete_only || set_complete(defs, sets[j], scan@)),
                match best {
                    Some(b) => b < i && ok(b as int) && forall|j: int|
                        0 <= j < i && #[trigger] ok(j) && j != b ==> !outranks(sets, j, b as int),
                    None => forall|j: int| 0 <= j < i ==> !#[trigger] ok(j),
                },
            decreases sets.len() - i,
        {
            if self.rom_sets[i].machine_type == self.machine_type && (!complete_only
                || self.set_is_complete(i, scan)) {
                match best {
                    Some(b) => {
                        if self.rom_sets[i].priority > self.rom_sets[b].priority {
                            best = Some(i);
                        }
                    },
                    None => {
                        best = Some(i);
                    },
                }
            }
            i = i + 1;
        }
        proof {
            if complete_only {
                match best {
                    Some(b) => {
                        assert forall|j: int|
                            #[trigger] is_candidate(defs, sets, profile, scan@, j) && j
                                != b implies !outranks(sets, j, b as int) by {
                            assert(ok(j));
                        }
                    },
                    None => {
                        assert forall|j: int|
                            !is_candidate(defs, sets, profile, scan@, j) by {
                            if 0 <= j < sets.len() {
                                assert(!ok(j));
                            }
                        }
                    },
                }
            } else {
                match best {
                    Some(b) => {
                        assert forall|j: int|
                            0 <= j < sets.len() && #[trigger] sets[j].machine_type == profile && j
                                != b implies !outranks(sets, j, b as int) by {
                            assert(ok(j));
                        }
                    },
                    None => {
                        assert forall|j: int|
                            0 <= j < sets.len() implies #[trigger] sets[j].machine_type
                                != profile by {
                            assert(!ok(j));
                        }
                    },
                }
            }
        }
        best
    }
}

/// No identity occurs twice in `defs`.
fn catalog_ids_unique(defs: &Vec<RomDescriptor>) -> (r: bool)
    ensures
        r == ids_unique(defs@),
{
    let mut i: usize = 0;
    while i < defs.len()
        invariant
            i <= defs.len(),
            forall|a: int, b: int|
                0 <= a < i && 0 <= b < defs.len() && a != b ==> #[trigger] defs@[a].md5@
                    != #[trigger] defs@[b].md5@,
        decreases defs.len() - i,
    {
        let mut j: usize = 0;
        while j < defs.len()
            invariant
                i < defs.len(),
                j <= defs.len(),
                forall|a: int, b: int|
                    0 <= a < i && 0 <= b < defs.len() && a != b ==> #[trigger] defs@[a].md5@
                        != #[trigger] defs@[b].md5@,
                forall|b: int|
                    0 <= b < j && b != i ==> defs@[i as int].md5@ != #[trigger] defs@[b].md5@,
            decreases defs.len() - j,
        {
            if j != i && defs[i].md5 == defs[j].md5 {
                return false;
            }
            j = j + 1;
        }
        i = i + 1;
    }
    true
}

/// Every bundle names only catalog identities, each at most once.
fn sets_refer_to(defs: &Vec<RomDescriptor>, sets: &Vec<RomSet>) -> (r: bool)
    ensures
        r == sets_resolve(defs@, sets@),
{
    let mut s: usize = 0;
    while s < sets.len()
        invariant
            s <= sets.len(),
            forall|t: int, k: int|
                0 <= t < s && 0 <= k < sets@[t].roms.len() ==> has_def(
                    defs@,
                    #[trigger] sets@[t].roms@[k]@,
                ) && (forall|l: int|
                    0 <= l < sets@[t].roms.len() && l != k ==> sets@[t].roms@[l]@
                        != sets@[t].roms@[k]@),
        decreases sets.len() - s,
    {
        let roms = &sets[s].roms;
        let mut k: usize = 0;
        while k < roms.len()
            invariant
                s < sets.len(),
                *roms == sets@[s as int].roms,
                k <= roms.len(),
                forall|t: int, k2: int|
                    0 <= t < s && 0 <= k2 < sets@[t].roms.len() ==> has_def(
                        defs@,
                        #[trigger] sets@[t].roms@[k2]@,
                    ) && (forall|l: int|
                        0 <= l < sets@[t].roms.len() && l != k2 ==> sets@[t].roms@[l]@
                            != sets@[t].roms@[k2]@),
                forall|k2: int|
                    0 <= k2 < k ==> has_def(defs@, #[trigger] roms@[k2]@) && (forall|l: int|
                        0 <= l < roms.len() && l != k2 ==> roms@[l]@ != roms@[k2]@),
            decreases roms.len() - k,
        {
            match find_def(defs, &roms[k]) {
                Some(_) => {},
                None => {
                    assert(!has_def(defs@, sets@[s as int].roms@[k as int]@));
                    return false;
                },
            }
            let mut l: usize = 0;
            while l < roms.len()
                invariant
                    s < sets.len(),
                    *roms == sets@[s as int].roms,
                    k < roms.len(),
                    l <= roms.len(),
                    forall|l2: int| 0 <= l2 < l && l2 != k ==> roms@[l2]@ != roms@[k as int]@,
                decreases roms.len() - l,
            {
                if l != k && roms[l] == roms[k] {
                    assert(sets@[s as int].roms@[l as int]@ == sets@[s as int].roms@[k as int]@);
                    assert(!(forall|l2: int|
                        0 <= l2 < sets@[s as int].roms.len() && l2 != k ==> sets@[s as int].roms@[l2]@
                            != sets@[s as int].roms@[k as int]@));
                    return false;
                }
                l = l + 1;
            }
            k = k + 1;
        }
        s = s + 1;
    }
    true
}

} // verus!
