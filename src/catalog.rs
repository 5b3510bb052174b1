//! Catalog of known firmware images and the registry of firmware bundles.
use vstd::prelude::*;

verus! {

/// Extra wait states charged on each read from a firmware region.
pub const BIOS_READ_CYCLE_COST: u32 = 4;

/// Variant family shared by the interchangeable ROM BASIC revisions.
pub const BASIC_FAMILY: u32 = 1;

/// Hardware profile a firmware image or bundle belongs to.
#[allow(non_camel_case_types)]
#[derive(Clone, Copy, Debug, PartialEq, Eq, Structural)]
pub enum MachineType {
    IBM_PC_5150,
    IBM_XT_5160,
}

/// What a firmware image is.
#[derive(Clone, Copy, Debug, PartialEq, Eq, Structural)]
pub enum RomType {
    BIOS,
    BASIC,
    Diagnostic,
}

/// A fixed correction written over a mapped image: `bytes` land at `address`.
pub struct RomPatch {
    pub desc: String,
    pub address: usize,
    pub bytes: Vec<u8>,
}

/// Static description of one known firmware image.
pub struct RomDescriptor {
    /// Content identity: the lowercase hex MD5 digest of the image.
    pub md5: String,
    pub rom_type: RomType,
    pub machine_type: MachineType,
    pub optional: bool,
    pub priority: u32,
    /// Entries sharing a family are interchangeable; at most one of them is mapped.
    pub family: Option<u32>,
    pub address: usize,
    pub size: usize,
    pub cycle_cost: u32,
    pub patches: Vec<RomPatch>,
    /// Address to label table used for execution tracing.
    pub checkpoints: Vec<(usize, String)>,
}

/// Why firmware could not be made ready.
pub enum RomError {
    /// The scan directory could not be listed.
    DirNotFound,
    /// No bundle for the profile is complete. `missing` lists the required
    /// identities that the best-ranked bundle of the profile lacks.
    RomNotFoundForMachine { machine_type: MachineType, missing: Vec<String> },
    /// A selected image could not be read.
    FileNotFound { md5: String },
    /// A selected image does not have the size its catalog entry declares.
    SizeMismatch { md5: String, expected: usize, found: usize },
}

/// A bundle: a prioritised list of catalog identities for one profile.
pub struct RomSet {
    pub machine_type: MachineType,
    pub priority: u32,
    pub roms: Vec<String>,
}

/// The identities a bundle refers to, as character sequences.
pub open spec fn set_ids(set: RomSet) -> Seq<Seq<char>> {
    set.roms@.map_values(|r: String| r@)
}

pub open spec fn has_def(defs: Seq<RomDescriptor>, id: Seq<char>) -> bool {
    exists|i: int| 0 <= i < defs.len() && #[trigger] defs[i].md5@ == id
}

/// The catalog entry with identity `id` (meaningful when `has_def(defs, id)`).
pub open spec fn def_of(defs: Seq<RomDescriptor>, id: Seq<char>) -> RomDescriptor {
    defs[choose|i: int| 0 <= i < defs.len() && #[trigger] defs[i].md5@ == id]
}

pub open spec fn ids_unique(defs: Seq<RomDescriptor>) -> bool {
    forall|i: int, j: int|
        0 <= i < defs.len() && 0 <= j < defs.len() && i != j ==> #[trigger] defs[i].md5@
            != #[trigger] defs[j].md5@
}

/// Every identity a bundle names exists in the catalog, and no bundle names one twice.
pub open spec fn sets_resolve(defs: Seq<RomDescriptor>, sets: Seq<RomSet>) -> bool {
    forall|s: int, k: int|
        0 <= s < sets.len() && 0 <= k < sets[s].roms.len() ==> has_def(
            defs,
            #[trigger] sets[s].roms@[k]@,
        ) && (forall|l: int|
            0 <= l < sets[s].roms.len() && l != k ==> sets[s].roms@[l]@ != sets[s].roms@[k]@)
}

/// Well-formed catalog and registry.
pub open spec fn registry_wf(defs: Seq<RomDescriptor>, sets: Seq<RomSet>) -> bool {
    ids_unique(defs) && sets_resolve(defs, sets)
}

pub proof fn lemma_def_of_index(defs: Seq<RomDescriptor>, i: int)
    requires
        ids_unique(defs),
        0 <= i < defs.len(),
    ensures
        has_def(defs, defs[i].md5@),
        def_of(defs, defs[i].md5@) == defs[i],
{
    let id = defs[i].md5@;
    assert(defs[i].md5@ == id);
    let j = choose|j: int| 0 <= j < defs.len() && #[trigger] defs[j].md5@ == id;
    assert(j == i);
}

/// Finds the catalog index of `id`.
pub fn find_def(defs: &Vec<RomDescriptor>, id: &String) -> (r: Option<usize>)
    ensures
        match r {
            Some(i) => i < defs.len() && defs@[i as int].md5@ == id@,
            None => !has_def(defs@, id@),
        },
{
    let mut i: usize = 0;
    while i < defs.len()
        invariant
            i <= defs.len(),
            forall|k: int| 0 <= k < i ==> defs@[k].md5@ != id@,
        decreases defs.len() - i,
    {
        if defs[i].md5 == *id {
            return Some(i);
        }
        i = i + 1;
    }
    None
}

} // verus!
