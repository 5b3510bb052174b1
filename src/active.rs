//! What loading means: size checks on the selected images, the merged
//! checkpoint table, the memory regions and the patch writes of an active set.
use vstd::prelude::*;
use crate::catalog::{RomDescriptor, RomError, RomPatch, RomType, def_of};

verus! {

/// One firmware region handed to the memory bus.
pub struct RomRegion {
    pub bytes: Vec<u8>,
    pub address: usize,
    pub cycle_cost: u32,
    pub read_only: bool,
}

/// The catalog entries of a list of identities.
pub open spec fn descs_of(defs: Seq<RomDescriptor>, ids: Seq<Seq<char>>) -> Seq<RomDescriptor> {
    ids.map_values(|id: Seq<char>| def_of(defs, id))
}

/// An image that could not be read, or whose length is not the declared size.
pub open spec fn image_bad(d: RomDescriptor, img: Option<Vec<u8>>) -> bool {
    match img {
        None => true,
        Some(v) => v@.len() != d.size,
    }
}

pub open spec fn all_images_good(ds: Seq<RomDescriptor>, imgs: Seq<Option<Vec<u8>>>) -> bool {
    forall|k: int| 0 <= k < ds.len() ==> !#[trigger] image_bad(ds[k], imgs[k])
}

/// The error `load` reports: the first bad image decides it.
pub open spec fn load_error(
    ds: Seq<RomDescriptor>,
    ids: Seq<Seq<char>>,
    imgs: Seq<Option<Vec<u8>>>,
    e: RomError,
) -> bool {
    exists|k: int|
        {
            &&& 0 <= k < ds.len()
            &&& #[trigger] image_bad(ds[k], imgs[k])
            &&& forall|j: int| 0 <= j < k ==> !#[trigger] image_bad(ds[j], imgs[j])
            &&& match imgs[k] {
                None => e matches RomError::FileNotFound { md5 } && md5@ == ids[k],
                Some(v) => e matches RomError::SizeMismatch { md5, expected, found } && md5@
                    == ids[k] && expected == ds[k].size && found == v@.len(),
            }
        }
}

/// The bytes of images that were all read.
pub open spec fn image_views(imgs: Seq<Option<Vec<u8>>>) -> Seq<Seq<u8>> {
    imgs.map_values(|o: Option<Vec<u8>>| o.unwrap()@)
}

/// `cps` written over `m` in order; a later label for an address wins.
pub open spec fn merge_table(m: Map<usize, String>, cps: Seq<(usize, String)>) -> Map<usize, String>
    decreases cps.len(),
{
    if cps.len() == 0 {
        m
    } else {
        merge_table(m, cps.drop_last()).insert(cps.last().0, cps.last().1)
    }
}

/// The union of the checkpoint tables of `ds`, in order.
pub open spec fn merged_checkpoints(ds: Seq<RomDescriptor>) -> Map<usize, String>
    decreases ds.len(),
{
    if ds.len() == 0 {
        Map::empty()
    } else {
        merge_table(merged_checkpoints(ds.drop_last()), ds.last().checkpoints@)
    }
}

pub open spec fn patch_view(p: RomPatch) -> (usize, Seq<u8>) {
    (p.address, p.bytes@)
}

/// The patch writes of `ds`: each entry's patches, in order.
pub open spec fn patch_writes(ds: Seq<RomDescriptor>) -> Seq<(usize, Seq<u8>)>
    decreases ds.len(),
{
    if ds.len() == 0 {
        Seq::empty()
    } else {
        patch_writes(ds.drop_last()) + ds.last().patches@.map_values(|p: RomPatch| patch_view(p))
    }
}

pub open spec fn has_basic_entry(ds: Seq<RomDescriptor>) -> bool {
    exists|k: int| 0 <= k < ds.len() && #[trigger] ds[k].rom_type == RomType::BASIC
}

} // verus!
