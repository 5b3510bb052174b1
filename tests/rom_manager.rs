use rom_manager::builtin::{
    BASIC_V1_00, BASIC_V1_01, BIOS_5150_V1, BIOS_5150_V3, BIOS_5160_U18_JAN86,
    BIOS_5160_U18_MAY86, BIOS_5160_U19_JAN86, BIOS_5160_U19_MAY86, SUPERSOFT_DIAG,
};
use rom_manager::catalog::{
    MachineType, RomDescriptor, RomError, RomSet, RomType, BASIC_FAMILY, BIOS_READ_CYCLE_COST,
};
use rom_manager::manager::{Resolution, RomManager};
use rom_manager::scan::ScanResult;

fn record(m: &RomManager, scan: &mut ScanResult, id: &str) {
    m.record_digest(scan, &id.to_string(), format!("roms/{}.bin", id));
}

fn scan_of(m: &RomManager, ids: &[&str]) -> ScanResult {
    let mut scan = ScanResult::new();
    for id in ids {
        record(m, &mut scan, id);
    }
    scan
}

fn images_for(m: &RomManager, res: &Resolution) -> Vec<Option<Vec<u8>>> {
    res.roms
        .iter()
        .map(|id| Some(vec![0u8; m.get_romdesc(id).unwrap().size]))
        .collect()
}

fn desc(md5: &str, optional: bool, priority: u32, family: Option<u32>, size: usize) -> RomDescriptor {
    RomDescriptor {
        md5: md5.to_string(),
        rom_type: if family.is_some() { RomType::BASIC } else { RomType::BIOS },
        machine_type: MachineType::IBM_PC_5150,
        optional,
        priority,
        family,
        address: 0xF0000,
        size,
        cycle_cost: BIOS_READ_CYCLE_COST,
        patches: Vec::new(),
        checkpoints: Vec::new(),
    }
}

fn set(priority: u32, roms: &[&str]) -> RomSet {
    RomSet {
        machine_type: MachineType::IBM_PC_5150,
        priority,
        roms: roms.iter().map(|r| r.to_string()).collect(),
    }
}

fn ids(v: &[String]) -> Vec<&str> {
    v.iter().map(|s| s.as_str()).collect()
}

#[test]
fn builtin_catalog_lookup() {
    let m = RomManager::new(MachineType::IBM_PC_5150);
    let d = m.get_romdesc(BIOS_5150_V1).unwrap();
    assert_eq!(d.address, 0xFE000);
    assert_eq!(d.size, 8192);
    assert!(!d.optional);
    assert_eq!(d.patches.len(), 2);
    assert_eq!(d.checkpoints.len(), 21);
    assert!(m.get_romdesc(BASIC_V1_01).unwrap().optional);
    assert!(m.get_romdesc("00000000000000000000000000000000").is_none());
}

#[test]
fn record_ignores_other_profiles_and_unknown_files() {
    let m = RomManager::new(MachineType::IBM_PC_5150);
    let mut scan = ScanResult::new();
    record(&m, &mut scan, BIOS_5160_U18_JAN86);
    record(&m, &mut scan, "0123456789abcdef0123456789abcdef");
    assert!(!scan.contains(&BIOS_5160_U18_JAN86.to_string()));
    record(&m, &mut scan, BIOS_5150_V1);
    assert!(scan.contains(&BIOS_5150_V1.to_string()));
    assert_eq!(
        scan.path_of(&BIOS_5150_V1.to_string()),
        Some(format!("roms/{}.bin", BIOS_5150_V1))
    );
    assert_eq!(scan.path_of(&BIOS_5150_V3.to_string()), None);
}

#[test]
fn scan_file_identifies_by_md5() {
    // md5("abc") = 900150983cd24fb0d6963f7d28e17f72
    let abc = "900150983cd24fb0d6963f7d28e17f72";
    let m = RomManager::with_tables(
        MachineType::IBM_PC_5150,
        vec![desc(abc, false, 0, None, 3)],
        vec![set(0, &[abc])],
    )
    .unwrap();
    let mut scan = ScanResult::new();
    m.scan_file(&mut scan, "other.bin".to_string(), b"abd");
    assert!(!scan.contains(&abc.to_string()));
    m.scan_file(&mut scan, "abc.bin".to_string(), b"abc");
    assert_eq!(scan.path_of(&abc.to_string()), Some("abc.bin".to_string()));
}

#[test]
fn with_tables_rejects_bad_configuration() {
    let a = "aa000000000000000000000000000000";
    let b = "bb000000000000000000000000000000";
    assert!(RomManager::with_tables(
        MachineType::IBM_PC_5150,
        vec![desc(a, false, 0, None, 4)],
        vec![set(0, &[a, b])],
    )
    .is_none());
    assert!(RomManager::with_tables(
        MachineType::IBM_PC_5150,
        vec![desc(a, false, 0, None, 4), desc(a, true, 1, None, 4)],
        vec![set(0, &[a])],
    )
    .is_none());
    assert!(RomManager::with_tables(
        MachineType::IBM_PC_5150,
        vec![desc(a, false, 0, None, 4)],
        vec![set(0, &[a, a])],
    )
    .is_none());
    assert!(RomManager::with_tables(
        MachineType::IBM_PC_5150,
        vec![desc(a, false, 0, None, 4), desc(b, true, 0, None, 4)],
        vec![set(0, &[a, b])],
    )
    .is_some());
}

#[test]
fn superset_bundle_with_higher_priority_wins() {
    let r = "11000000000000000000000000000000";
    let o = "22000000000000000000000000000000";
    let m = RomManager::with_tables(
        MachineType::IBM_PC_5150,
        vec![desc(r, false, 0, None, 4), desc(o, false, 0, None, 4)],
        vec![set(0, &[r]), set(1, &[r, o])],
    )
    .unwrap();
    let res = m.resolve(&scan_of(&m, &[r, o])).ok().unwrap();
    assert_eq!(res.bundle, 1);
    assert_eq!(ids(&res.roms), vec![r, o]);
}

#[test]
fn equal_priority_resolves_to_first_declared() {
    let a = "aa000000000000000000000000000000";
    let b = "bb000000000000000000000000000000";
    let m = RomManager::with_tables(
        MachineType::IBM_PC_5150,
        vec![desc(a, false, 0, None, 4), desc(b, false, 0, None, 4)],
        vec![set(3, &[b]), set(3, &[a])],
    )
    .unwrap();
    let res = m.resolve(&scan_of(&m, &[a, b])).ok().unwrap();
    assert_eq!(res.bundle, 0);
    assert_eq!(ids(&res.roms), vec![b]);
}

#[test]
fn missing_required_entry_falls_through() {
    let m = RomManager::new(MachineType::IBM_XT_5160);
    let all = [BIOS_5160_U18_JAN86, BIOS_5160_U19_JAN86, BIOS_5160_U18_MAY86, BIOS_5160_U19_MAY86];
    let res = m.resolve(&scan_of(&m, &all)).ok().unwrap();
    assert_eq!(res.bundle, 5);
    let res = m
        .resolve(&scan_of(&m, &[BIOS_5160_U18_JAN86, BIOS_5160_U19_JAN86, BIOS_5160_U18_MAY86]))
        .ok()
        .unwrap();
    assert_eq!(res.bundle, 4);
    assert_eq!(ids(&res.roms), vec![BIOS_5160_U18_JAN86, BIOS_5160_U19_JAN86]);
}

#[test]
fn no_complete_bundle_reports_missing_entries() {
    let m = RomManager::new(MachineType::IBM_XT_5160);
    match m.resolve(&scan_of(&m, &[BIOS_5160_U18_JAN86, BIOS_5160_U18_MAY86])) {
        Err(RomError::RomNotFoundForMachine { machine_type, missing }) => {
            assert_eq!(machine_type, MachineType::IBM_XT_5160);
            assert_eq!(ids(&missing), vec![BIOS_5160_U19_MAY86]);
        }
        _ => panic!("expected a resolution failure"),
    }
    let m = RomManager::new(MachineType::IBM_PC_5150);
    match m.resolve(&ScanResult::new()) {
        Err(RomError::RomNotFoundForMachine { missing, .. }) => {
            assert_eq!(ids(&missing), vec![SUPERSOFT_DIAG]);
        }
        _ => panic!("expected a resolution failure"),
    }
}

#[test]
fn basic_variants_collapse_to_highest_priority() {
    let m = RomManager::new(MachineType::IBM_PC_5150);
    let scan = scan_of(&m, &[BIOS_5150_V3, BASIC_V1_00, BASIC_V1_01]);
    let res = m.resolve(&scan).ok().unwrap();
    assert_eq!(res.bundle, 2);
    assert_eq!(ids(&res.roms), vec![BIOS_5150_V3, BASIC_V1_01]);
    let scan = scan_of(&m, &[BIOS_5150_V3, BASIC_V1_00]);
    let res = m.resolve(&scan).ok().unwrap();
    assert_eq!(ids(&res.roms), vec![BIOS_5150_V3, BASIC_V1_00]);
    let scan = scan_of(&m, &[BIOS_5150_V3]);
    let res = m.resolve(&scan).ok().unwrap();
    assert_eq!(ids(&res.roms), vec![BIOS_5150_V3]);
}

#[test]
fn variant_ties_keep_first_listed() {
    let a = "aa000000000000000000000000000000";
    let b = "bb000000000000000000000000000000";
    let m = RomManager::with_tables(
        MachineType::IBM_PC_5150,
        vec![desc(a, true, 7, Some(BASIC_FAMILY), 4), desc(b, true, 7, Some(BASIC_FAMILY), 4)],
        vec![set(0, &[b, a])],
    )
    .unwrap();
    let res = m.resolve(&scan_of(&m, &[a, b])).ok().unwrap();
    assert_eq!(ids(&res.roms), vec![b]);
}

#[test]
fn diagnostic_bundle_outranks_bios_bundles() {
    let m = RomManager::new(MachineType::IBM_PC_5150);
    let res = m.resolve(&scan_of(&m, &[BIOS_5150_V1, SUPERSOFT_DIAG])).ok().unwrap();
    assert_eq!(res.bundle, 3);
    assert_eq!(ids(&res.roms), vec![SUPERSOFT_DIAG]);
}

#[test]
fn resolve_is_repeatable() {
    let m = RomManager::new(MachineType::IBM_PC_5150);
    let scan = scan_of(&m, &[BASIC_V1_01, BIOS_5150_V1, BIOS_5150_V3, BASIC_V1_00]);
    let first = m.resolve(&scan).ok().unwrap();
    let second = m.resolve(&scan).ok().unwrap();
    assert_eq!(first.bundle, second.bundle);
    assert_eq!(first.roms, second.roms);
    let reordered = scan_of(&m, &[BIOS_5150_V3, BASIC_V1_00, BIOS_5150_V1, BASIC_V1_01]);
    let third = m.resolve(&reordered).ok().unwrap();
    assert_eq!(first.bundle, third.bundle);
    assert_eq!(first.roms, third.roms);
}

#[test]
fn load_maps_patches_and_labels_the_active_set() {
    let mut m = RomManager::new(MachineType::IBM_PC_5150);
    assert!(m.copy_into_memory().is_none());
    assert!(m.install_patches().is_empty());
    assert!(m.get_checkpoint(0xfe01a).is_none());
    let res = m.resolve(&scan_of(&m, &[BIOS_5150_V1, BASIC_V1_00])).ok().unwrap();
    let images = images_for(&m, &res);
    assert!(m.load(&res, images).is_ok());
    assert!(m.has_basic());
    let regions = m.copy_into_memory().unwrap();
    assert_eq!(regions.len(), 2);
    assert_eq!(regions[0].address, 0xFE000);
    assert_eq!(regions[0].bytes.len(), 8192);
    assert_eq!(regions[1].address, 0xF6000);
    assert_eq!(regions[1].bytes.len(), 32768);
    assert!(regions.iter().all(|r| r.read_only && r.cycle_cost == 4));
    let patches = m.install_patches();
    assert_eq!(patches.len(), 2);
    assert_eq!(patches[0].address, 0xFE130);
    assert_eq!(patches[0].bytes, vec![0xEB, 0x03]);
    assert_eq!(patches[1].address, 0xFE0D8);
    assert_eq!(patches[1].bytes, vec![0x74, 0xD5]);
    assert_eq!(m.get_checkpoint(0xfe01a).unwrap(), "RAM Check Routine");
    assert_eq!(m.get_checkpoint(0xf6000).unwrap(), "ROM BASIC");
    assert!(m.get_checkpoint(0xfe01b).is_none());
}

#[test]
fn checkpoints_come_only_from_the_active_set() {
    let mut m = RomManager::new(MachineType::IBM_PC_5150);
    let res = m.resolve(&scan_of(&m, &[BIOS_5150_V1, BIOS_5150_V3])).ok().unwrap();
    assert_eq!(ids(&res.roms), vec![BIOS_5150_V3]);
    let images = images_for(&m, &res);
    assert!(m.load(&res, images).is_ok());
    assert!(!m.has_basic());
    assert!(m.get_checkpoint(0xfe01a).is_none());
    assert!(m.install_patches().is_empty());
}

#[test]
fn short_image_fails_with_size_mismatch() {
    let mut m = RomManager::new(MachineType::IBM_PC_5150);
    let res = m.resolve(&scan_of(&m, &[BIOS_5150_V3, BASIC_V1_01])).ok().unwrap();
    let images = vec![Some(vec![0u8; 8191]), Some(vec![0u8; 32768])];
    match m.load(&res, images) {
        Err(RomError::SizeMismatch { md5, expected, found }) => {
            assert_eq!(md5, BIOS_5150_V3);
            assert_eq!(expected, 8192);
            assert_eq!(found, 8191);
        }
        _ => panic!("expected a size mismatch"),
    }
    assert!(m.copy_into_memory().is_none());
    assert!(!m.has_basic());
}

#[test]
fn failed_reload_keeps_previous_set() {
    let mut m = RomManager::new(MachineType::IBM_PC_5150);
    let res = m.resolve(&scan_of(&m, &[BIOS_5150_V1])).ok().unwrap();
    let images = images_for(&m, &res);
    assert!(m.load(&res, images).is_ok());
    let res = m.resolve(&scan_of(&m, &[BIOS_5150_V3, BASIC_V1_01])).ok().unwrap();
    match m.load(&res, vec![Some(vec![0u8; 8192]), None]) {
        Err(RomError::FileNotFound { md5 }) => assert_eq!(md5, BASIC_V1_01),
        _ => panic!("expected an unreadable file"),
    }
    assert_eq!(m.get_checkpoint(0xfe01a).unwrap(), "RAM Check Routine");
    assert_eq!(m.copy_into_memory().unwrap().len(), 1);
}

#[test]
fn first_bad_image_decides_the_error() {
    let mut m = RomManager::new(MachineType::IBM_PC_5150);
    let res = m.resolve(&scan_of(&m, &[BIOS_5150_V3, BASIC_V1_01])).ok().unwrap();
    match m.load(&res, vec![None, Some(vec![1u8; 3])]) {
        Err(RomError::FileNotFound { md5 }) => assert_eq!(md5, BIOS_5150_V3),
        _ => panic!("expected an unreadable file"),
    }
}
