//! The built-in firmware catalog and bundle registry.
use vstd::prelude::*;
use crate::catalog::{
    MachineType, RomDescriptor, RomPatch, RomSet, RomType, BASIC_FAMILY, BIOS_READ_CYCLE_COST,
    registry_wf, has_def,
};
use crate::resolve::strs;

verus! {
/// 5150 BIOS, 04/24/81.
pub const BIOS_5150_V1: &'static str = "6338a9808445de12109a2389b71ee2eb";
/// 5150 BIOS, 10/19/81.
pub const BIOS_5150_V2: &'static str = "6a1ed4e3f500d785a01ff4d3e000d79c";
/// 5150 BIOS, 10/27/83.
pub const BIOS_5150_V3: &'static str = "f453eb2df6daf21ec644d33663d85434";
/// Cassette BASIC 1.0.
pub const BASIC_V1_00: &'static str = "2ad31da203a49b504fad3a34af0c719f";
/// Cassette BASIC 1.01.
pub const BASIC_V1_01: &'static str = "eb28f0e8d3f641f2b58a3677b3b998cc";
/// 5160 BIOS U18, 01/10/86.
pub const BIOS_5160_U18_JAN86: &'static str = "fd9ff9cbe0a8f154746ccb0a33f6d3e7";
/// 5160 BIOS U19, 01/10/86.
pub const BIOS_5160_U19_JAN86: &'static str = "f051b4bbc3b60c3a14df94a0e4ee720f";
/// 5160 BIOS U18, 05/09/86.
pub const BIOS_5160_U18_MAY86: &'static str = "9696472098999c02217bf922786c1f4a";
/// 5160 BIOS U19, 05/09/86.
pub const BIOS_5160_U19_MAY86: &'static str = "df9f29de490d7f269a6405df1fed69b7";
/// Supersoft PC/XT diagnostic ROM.
pub const SUPERSOFT_DIAG: &'static str = "3a0eacac07f1020b95ce06043982dfd1";

/// Catalog entry `d` is the given image, with `np` patches and `nc` checkpoints.
pub open spec fn is_entry(
    d: RomDescriptor,
    md5: &str,
    rom_type: RomType,
    machine_type: MachineType,
    optional: bool,
    priority: u32,
    family: Option<u32>,
    address: usize,
    size: usize,
    np: nat,
    nc: nat,
) -> bool {
    &&& d.md5@ == md5@
    &&& d.rom_type == rom_type
    &&& d.machine_type == machine_type
    &&& d.optional == optional
    &&& d.priority == priority
    &&& d.family == family
    &&& d.address == address
    &&& d.size == size
    &&& d.cycle_cost == BIOS_READ_CYCLE_COST
    &&& d.patches@.len() == np
    &&& d.checkpoints@.len() == nc
}

/// The built-in catalog and registry, entry by entry.
pub open spec fn is_builtin(defs: Seq<RomDescriptor>, sets: Seq<RomSet>) -> bool {
    &&& defs.len() == 10
    &&& is_entry(defs[0], BIOS_5150_V1, RomType::BIOS, MachineType::IBM_PC_5150, false, 0, None, 0xFE000, 8192, 2, 21)
    &&& is_entry(defs[1], BIOS_5150_V2, RomType::BIOS, MachineType::IBM_PC_5150, false, 2, None, 0xFE000, 8192, 0, 0)
    &&& is_entry(defs[2], BIOS_5150_V3, RomType::BIOS, MachineType::IBM_PC_5150, false, 3, None, 0xFE000, 8192, 0, 0)
    &&& is_entry(defs[3], BASIC_V1_00, RomType::BASIC, MachineType::IBM_PC_5150, true, 1, Some(BASIC_FAMILY), 0xF6000, 32768, 0, 0)
    &&& is_entry(defs[4], BASIC_V1_01, RomType::BASIC, MachineType::IBM_PC_5150, true, 2, Some(BASIC_FAMILY), 0xF6000, 32768, 0, 0)
    &&& is_entry(defs[5], BIOS_5160_U18_JAN86, RomType::BIOS, MachineType::IBM_XT_5160, false, 1, None, 0xF8000, 32768, 0, 0)
    &&& is_entry(defs[6], BIOS_5160_U19_JAN86, RomType::BIOS, MachineType::IBM_XT_5160, false, 1, None, 0xF0000, 32768, 0, 0)
    &&& is_entry(defs[7], BIOS_5160_U18_MAY86, RomType::BIOS, MachineType::IBM_XT_5160, false, 1, None, 0xF8000, 32768, 0, 0)
    &&& is_entry(defs[8], BIOS_5160_U19_MAY86, RomType::BIOS, MachineType::IBM_XT_5160, false, 1, None, 0xF0000, 32768, 0, 0)
    &&& is_entry(defs[9], SUPERSOFT_DIAG, RomType::Diagnostic, MachineType::IBM_PC_5150, false, 10, None, 0xFE000, 32768, 0, 0)
    &&& sets.len() == 6
    &&& sets[0].machine_type == MachineType::IBM_PC_5150 && sets[0].priority == 0
    &&& strs(sets[0].roms@) == seq![BIOS_5150_V1@, BASIC_V1_00@, BASIC_V1_01@]
    &&& sets[1].machine_type == MachineType::IBM_PC_5150 && sets[1].priority == 1
    &&& strs(sets[1].roms@) == seq![BIOS_5150_V2@, BASIC_V1_00@, BASIC_V1_01@]
    &&& sets[2].machine_type == MachineType::IBM_PC_5150 && sets[2].priority == 2
    &&& strs(sets[2].roms@) == seq![BIOS_5150_V3@, BASIC_V1_00@, BASIC_V1_01@]
    &&& sets[3].machine_type == MachineType::IBM_PC_5150 && sets[3].priority == 10
    &&& strs(sets[3].roms@) == seq![SUPERSOFT_DIAG@]
    &&& sets[4].machine_type == MachineType::IBM_XT_5160 && sets[4].priority == 4
    &&& strs(sets[4].roms@) == seq![BIOS_5160_U18_JAN86@, BIOS_5160_U19_JAN86@]
    &&& sets[5].machine_type == MachineType::IBM_XT_5160 && sets[5].priority == 5
    &&& strs(sets[5].roms@) == seq![BIOS_5160_U18_MAY86@, BIOS_5160_U19_MAY86@]
}

/// A catalog entry with no patches and no checkpoints.
fn entry(
    md5: &str,
    rom_type: RomType,
    machine_type: MachineType,
    optional: bool,
    priority: u32,
    family: Option<u32>,
    address: usize,
    size: usize,
) -> (d: RomDescriptor)
    ensures
        d.md5@ == md5@,
        d.rom_type == rom_type,
        d.machine_type == machine_type,
        d.optional == optional,
        d.priority == priority,
        d.family == family,
        d.address == address,
        d.size == size,
        d.cycle_cost == BIOS_READ_CYCLE_COST,
        d.patches@.len() == 0,
        d.checkpoints@.len() == 0,
{
    RomDescriptor {
        md5: md5.to_owned(),
        rom_type,
        machine_type,
        optional,
        priority,
        family,
        address,
        size,
        cycle_cost: BIOS_READ_CYCLE_COST,
        patches: Vec::new(),
        checkpoints: Vec::new(),
    }
}

/// A bundle over the given identities.
fn bundle(machine_type: MachineType, priority: u32, ids: &[&str]) -> (s: RomSet)
    ensures
        s.machine_type == machine_type,
        s.priority == priority,
        s.roms@.len() == ids@.len(),
        forall|k: int| 0 <= k < ids@.len() ==> #[trigger] s.roms@[k]@ == ids@[k]@,
{
    let mut roms: Vec<String> = Vec::new();
    let mut k: usize = 0;
    while k < ids.len()
        invariant
            k <= ids@.len(),
            roms@.len() == k,
            forall|j: int| 0 <= j < k ==> #[trigger] roms@[j]@ == ids@[j]@,
        decreases ids@.len() - k,
    {
        roms.push(ids[k].to_owned());
        k = k + 1;
    }
    RomSet { machine_type, priority, roms }
}

/// The first 5150 BIOS, with its patches and POST checkpoints.
fn bios_5150_v1() -> (d: RomDescriptor)
    ensures
        is_entry(d, BIOS_5150_V1, RomType::BIOS, MachineType::IBM_PC_5150, false, 0, None, 0xFE000, 8192, 2, 21),
{
    let mut d = entry(BIOS_5150_V1, RomType::BIOS, MachineType::IBM_PC_5150, false, 0, None, 0xFE000, 8192);
    d.patches.push(RomPatch {
        desc: "Patch DMA check failure: JZ->JNP".to_owned(),
        address: 0xFE130,
        bytes: vec![0xEB, 0x03],
    });
    d.patches.push(RomPatch {
        desc: "Patch ROM checksum failure: JNZ-JZ".to_owned(),
        address: 0xFE0D8,
        bytes: vec![0x74, 0xD5],
    });
    d.checkpoints.push((0xfe01a, "RAM Check Routine".to_owned()));
    d.checkpoints.push((0xfe05b, "8088 Processor Test".to_owned()));
    d.checkpoints.push((0xfe0b0, "ROS Checksum".to_owned()));
    d.checkpoints.push((0xfe0da, "8237 DMA Initialization Test".to_owned()));
    d.checkpoints.push((0xfe117, "DMA Controller test".to_owned()));
    d.checkpoints.push((0xfe158, "Base 16K Read/Write Test".to_owned()));
    d.checkpoints.push((0xfe235, "8249 Interrupt Controller Test".to_owned()));
    d.checkpoints.push((0xfe285, "8253 Timer Checkout".to_owned()));
    d.checkpoints.push((0xfe33b, "ROS Checksum II".to_owned()));
    d.checkpoints.push((0xfe352, "Initialize CRTC Controller".to_owned()));
    d.checkpoints.push((0xfe3af, "Video Line Test".to_owned()));
    d.checkpoints.push((0xfe3c0, "CRT Interface Lines Test".to_owned()));
    d.checkpoints.push((0xfe630, "Error Beep".to_owned()));
    d.checkpoints.push((0xfe666, "Beep".to_owned()));
    d.checkpoints.push((0xfe688, "Keyboard Reset".to_owned()));
    d.checkpoints.push((0xfe6b2, "Blink LED Interrupt".to_owned()));
    d.checkpoints.push((0xfe6ca, "Print Message".to_owned()));
    d.checkpoints.push((0xfe6f2, "Bootstrap Loader".to_owned()));
    d.checkpoints.push((0xfef33, "FDC Wait for Interrupt".to_owned()));
    d.checkpoints.push((0xfef47, "FDC Interrupt Timeout".to_owned()));
    d.checkpoints.push((0xf6000, "ROM BASIC".to_owned()));
    d
}

/// The identities of the built-in catalog, each differing from the others in
/// its first two characters.
proof fn lemma_builtin_ids_differ()
    ensures
        BIOS_5150_V1@.len() == 32 && BIOS_5150_V1@[0] == '6' && BIOS_5150_V1@[1] == '3',
        BIOS_5150_V2@.len() == 32 && BIOS_5150_V2@[0] == '6' && BIOS_5150_V2@[1] == 'a',
        BIOS_5150_V3@.len() == 32 && BIOS_5150_V3@[0] == 'f' && BIOS_5150_V3@[1] == '4',
        BASIC_V1_00@.len() == 32 && BASIC_V1_00@[0] == '2' && BASIC_V1_00@[1] == 'a',
        BASIC_V1_01@.len() == 32 && BASIC_V1_01@[0] == 'e' && BASIC_V1_01@[1] == 'b',
        BIOS_5160_U18_JAN86@.len() == 32 && BIOS_5160_U18_JAN86@[0] == 'f' && BIOS_5160_U18_JAN86@[1] == 'd',
        BIOS_5160_U19_JAN86@.len() == 32 && BIOS_5160_U19_JAN86@[0] == 'f' && BIOS_5160_U19_JAN86@[1] == '0',
        BIOS_5160_U18_MAY86@.len() == 32 && BIOS_5160_U18_MAY86@[0] == '9' && BIOS_5160_U18_MAY86@[1] == '6',
        BIOS_5160_U19_MAY86@.len() == 32 && BIOS_5160_U19_MAY86@[0] == 'd' && BIOS_5160_U19_MAY86@[1] == 'f',
        SUPERSOFT_DIAG@.len() == 32 && SUPERSOFT_DIAG@[0] == '3' && SUPERSOFT_DIAG@[1] == 'a',
{
    reveal_strlit("6338a9808445de12109a2389b71ee2eb");
    reveal_strlit("6a1ed4e3f500d785a01ff4d3e000d79c");
    reveal_strlit("f453eb2df6daf21ec644d33663d85434");
    reveal_strlit("2ad31da203a49b504fad3a34af0c719f");
    reveal_strlit("eb28f0e8d3f641f2b58a3677b3b998cc");
    reveal_strlit("fd9ff9cbe0a8f154746ccb0a33f6d3e7");
    reveal_strlit("f051b4bbc3b60c3a14df94a0e4ee720f");
    reveal_strlit("9696472098999c02217bf922786c1f4a");
    reveal_strlit("df9f29de490d7f269a6405df1fed69b7");
    reveal_strlit("3a0eacac07f1020b95ce06043982dfd1");
}

/// The built-in tables are well formed.
proof fn lemma_builtin_wf(defs: Seq<RomDescriptor>, sets: Seq<RomSet>)
    requires
        defs.len() == 10,
        defs[0].md5@ == BIOS_5150_V1@,
        defs[1].md5@ == BIOS_5150_V2@,
        defs[2].md5@ == BIOS_5150_V3@,
        defs[3].md5@ == BASIC_V1_00@,
        defs[4].md5@ == BASIC_V1_01@,
        defs[5].md5@ == BIOS_5160_U18_JAN86@,
        defs[6].md5@ == BIOS_5160_U19_JAN86@,
        defs[7].md5@ == BIOS_5160_U18_MAY86@,
        defs[8].md5@ == BIOS_5160_U19_MAY86@,
        defs[9].md5@ == SUPERSOFT_DIAG@,
        sets.len() == 6,
        sets[0].roms@.len() == 3,
        sets[0].roms@[0]@ == BIOS_5150_V1@,
        sets[0].roms@[1]@ == BASIC_V1_00@,
        sets[0].roms@[2]@ == BASIC_V1_01@,
        sets[1].roms@.len() == 3,
        sets[1].roms@[0]@ == BIOS_5150_V2@,
        sets[1].roms@[1]@ == BASIC_V1_00@,
        sets[1].roms@[2]@ == BASIC_V1_01@,
        sets[2].roms@.len() == 3,
        sets[2].roms@[0]@ == BIOS_5150_V3@,
        sets[2].roms@[1]@ == BASIC_V1_00@,
        sets[2].roms@[2]@ == BASIC_V1_01@,
        sets[3].roms@.len() == 1,
        sets[3].roms@[0]@ == SUPERSOFT_DIAG@,
        sets[4].roms@.len() == 2,
        sets[4].roms@[0]@ == BIOS_5160_U18_JAN86@,
        sets[4].roms@[1]@ == BIOS_5160_U19_JAN86@,
        sets[5].roms@.len() == 2,
        sets[5].roms@[0]@ == BIOS_5160_U18_MAY86@,
        sets[5].roms@[1]@ == BIOS_5160_U19_MAY86@,
    ensures
        registry_wf(defs, sets),
{
    lemma_builtin_ids_differ();
    assert forall|i: int, j: int|
        0 <= i < defs.len() && 0 <= j < defs.len() && i != j implies #[trigger] defs[i].md5@
            != #[trigger] defs[j].md5@ by {
        assert(i == 0 || i == 1 || i == 2 || i == 3 || i == 4 || i == 5 || i == 6 || i == 7 || i == 8 || i == 9);
        assert(j == 0 || j == 1 || j == 2 || j == 3 || j == 4 || j == 5 || j == 6 || j == 7 || j == 8 || j == 9);
    }
    assert forall|s: int, k: int| 0 <= s < sets.len() && 0 <= k < sets[s].roms.len() implies has_def(
        defs,
        #[trigger] sets[s].roms@[k]@,
    ) && (forall|l: int|
        0 <= l < sets[s].roms.len() && l != k ==> sets[s].roms@[l]@ != sets[s].roms@[k]@) by {
        assert(s == 0 || s == 1 || s == 2 || s == 3 || s == 4 || s == 5);
        assert(k == 0 || k == 1 || k == 2);
        assert forall|l: int| 0 <= l < sets[s].roms.len() && l != k implies sets[s].roms@[l]@
            != sets[s].roms@[k]@ by {
            assert(l == 0 || l == 1 || l == 2);
        }
    }
}

/// The built-in catalog and registry; they are well formed.
pub fn builtin_tables() -> (r: (Vec<RomDescriptor>, Vec<RomSet>))
    ensures
        is_builtin(r.0@, r.1@),
        registry_wf(r.0@, r.1@),
{
    let mut defs: Vec<RomDescriptor> = Vec::new();
    defs.push(bios_5150_v1());
    defs.push(entry(BIOS_5150_V2, RomType::BIOS, MachineType::IBM_PC_5150, false, 2, None, 0xFE000, 8192));
    defs.push(entry(BIOS_5150_V3, RomType::BIOS, MachineType::IBM_PC_5150, false, 3, None, 0xFE000, 8192));
    defs.push(entry(BASIC_V1_00, RomType::BASIC, MachineType::IBM_PC_5150, true, 1, Some(BASIC_FAMILY), 0xF6000, 32768));
    defs.push(entry(BASIC_V1_01, RomType::BASIC, MachineType::IBM_PC_5150, true, 2, Some(BASIC_FAMILY), 0xF6000, 32768));
    defs.push(entry(BIOS_5160_U18_JAN86, RomType::BIOS, MachineType::IBM_XT_5160, false, 1, None, 0xF8000, 32768));
    defs.push(entry(BIOS_5160_U19_JAN86, RomType::BIOS, MachineType::IBM_XT_5160, false, 1, None, 0xF0000, 32768));
    defs.push(entry(BIOS_5160_U18_MAY86, RomType::BIOS, MachineType::IBM_XT_5160, false, 1, None, 0xF8000, 32768));
    defs.push(entry(BIOS_5160_U19_MAY86, RomType::BIOS, MachineType::IBM_XT_5160, false, 1, None, 0xF0000, 32768));
    defs.push(entry(SUPERSOFT_DIAG, RomType::Diagnostic, MachineType::IBM_PC_5150, false, 10, None, 0xFE000, 32768));

    let mut sets: Vec<RomSet> = Vec::new();
    sets.push(bundle(MachineType::IBM_PC_5150, 0, &[BIOS_5150_V1, BASIC_V1_00, BASIC_V1_01]));
    sets.push(bundle(MachineType::IBM_PC_5150, 1, &[BIOS_5150_V2, BASIC_V1_00, BASIC_V1_01]));
    sets.push(bundle(MachineType::IBM_PC_5150, 2, &[BIOS_5150_V3, BASIC_V1_00, BASIC_V1_01]));
    sets.push(bundle(MachineType::IBM_PC_5150, 10, &[SUPERSOFT_DIAG]));
    sets.push(bundle(MachineType::IBM_XT_5160, 4, &[BIOS_5160_U18_JAN86, BIOS_5160_U19_JAN86]));
    sets.push(bundle(MachineType::IBM_XT_5160, 5, &[BIOS_5160_U18_MAY86, BIOS_5160_U19_MAY86]));
    proof {
        lemma_builtin_wf(defs@, sets@);
        assert(strs(sets@[0].roms@) =~= seq![BIOS_5150_V1@, BASIC_V1_00@, BASIC_V1_01@]);
        assert(strs(sets@[1].roms@) =~= seq![BIOS_5150_V2@, BASIC_V1_00@, BASIC_V1_01@]);
        assert(strs(sets@[2].roms@) =~= seq![BIOS_5150_V3@, BASIC_V1_00@, BASIC_V1_01@]);
        assert(strs(sets@[3].roms@) =~= seq![SUPERSOFT_DIAG@]);
        assert(strs(sets@[4].roms@) =~= seq![BIOS_5160_U18_JAN86@, BIOS_5160_U19_JAN86@]);
        assert(strs(sets@[5].roms@) =~= seq![BIOS_5160_U18_MAY86@, BIOS_5160_U19_MAY86@]);
    }
    (defs, sets)
}

} // verus!
