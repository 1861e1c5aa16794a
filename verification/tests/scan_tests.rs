use std::ops::Range;

use mince::mem_vars::{
    address_from_le_bytes, MemVarField, MemVars, MemVarsError, OnGroundVars, ReadError, ReadErrorKind,
};
use mince::module_name::{ModuleName, Platform};
use mince::scan::{
    ModuleImage, NamedArea, NamedSignature, ScanError, ScanHit, SignatureArea, SignatureAreaType,
    SignatureAreas, SignatureScanner, Signatures,
};
use mince::signature::Signature;

fn client_code() -> Vec<u8> {
    let mut v = vec![0x90u8; 4];
    // on_ground_dec
    v.extend_from_slice(&[0xFF, 0x0D, 0x11, 0x22, 0x33, 0x44, 0xE8, 0x01, 0x02, 0x03, 0x04, 0x5E, 0x5D]);
    v.extend_from_slice(&[0x90; 3]);
    // on_ground_inc
    v.extend_from_slice(&[0xFF, 0x05, 0x55, 0x66, 0x77, 0x88, 0x85, 0xDB, 0x74, 0x0D, 0x8B, 0x13]);
    v.extend_from_slice(&[0x90; 2]);
    // do_jump_update
    v.extend_from_slice(&[
        0x89, 0x0D, 0xAA, 0xBB, 0xCC, 0xDD, 0x8B, 0x0D, 0x01, 0x01, 0x01, 0x01, 0xF6, 0xC1, 0x03,
        0x74, 0x03, 0x83, 0xCE, 0x08,
    ]);
    v
}

fn named(name: &str, text: &str) -> NamedSignature {
    NamedSignature { name: name.to_string(), signature: Signature::new(ModuleName::Client, text).unwrap() }
}

fn area(sig: &str, area: SignatureAreaType) -> SignatureArea {
    SignatureArea::new(sig.to_string(), area)
}

#[test]
fn fixed_tables_build() {
    let sigs = Signatures::new().unwrap();
    assert!(SignatureAreas::new(&sigs).is_ok());
}

#[test]
fn areas_need_their_signatures() {
    let sigs = Signatures::from_vec(vec![named("on_ground_dec", "FF 0D")]);
    let err = SignatureAreas::new(&sigs).err().unwrap();
    assert_eq!(err.signature_name, "on_ground_inc");
    assert_eq!(err.area_description, "on_ground_op_inc");
}

#[test]
fn scan_selects_capture_group_and_range() {
    let code = client_code();
    let images = vec![
        ModuleImage { file_name: "engine.dll".to_string(), base: 0x1000, memory: &code },
        ModuleImage { file_name: "client.dll".to_string(), base: 0x40_0000, memory: &code },
    ];
    let sigs = Signatures::new().unwrap();
    let group = area("on_ground_dec", SignatureAreaType::CaptureGroupIndex(1));
    let hit = SignatureScanner::scan_signature(&group, &sigs, &images, Platform::Windows).unwrap();
    assert_eq!(hit, ScanHit { image: 1, start: 6, end: 10 });
    let second = area("on_ground_dec", SignatureAreaType::CaptureGroupIndex(2));
    let hit = SignatureScanner::scan_signature(&second, &sigs, &images, Platform::Windows).unwrap();
    assert_eq!(hit, ScanHit { image: 1, start: 11, end: 15 });
    let range = area("on_ground_inc", SignatureAreaType::Range(Range { start: 0, end: 6 }));
    let hit = SignatureScanner::scan_signature(&range, &sigs, &images, Platform::Windows).unwrap();
    assert_eq!(hit, ScanHit { image: 1, start: 20, end: 26 });
}

#[test]
fn scan_errors() {
    let code = client_code();
    let images = vec![ModuleImage { file_name: "client.dll".to_string(), base: 0, memory: &code }];
    let sigs = Signatures::new().unwrap();
    let scan = |a: &SignatureArea, p: Platform| SignatureScanner::scan_signature(a, &sigs, &images, p);
    assert_eq!(
        scan(&area("nope", SignatureAreaType::CaptureGroupIndex(1)), Platform::Windows),
        Err(ScanError::SignatureNotFound)
    );
    assert_eq!(
        scan(&area("on_ground_dec", SignatureAreaType::CaptureGroupIndex(1)), Platform::Linux),
        Err(ScanError::ModuleNotFound)
    );
    assert_eq!(
        scan(&area("on_ground_dec", SignatureAreaType::CaptureGroupIndex(3)), Platform::Windows),
        Err(ScanError::CaptureGroupMissing(3))
    );
    assert_eq!(
        scan(&area("on_ground_dec", SignatureAreaType::Range(Range { start: 2, end: 14 })), Platform::Windows),
        Err(ScanError::RangeNotIndexable(2, 14))
    );
    assert_eq!(
        scan(&area("on_ground_dec", SignatureAreaType::Range(Range { start: 3, end: 2 })), Platform::Windows),
        Err(ScanError::RangeNotIndexable(3, 2))
    );
    let twice = [client_code(), client_code()].concat();
    let images2 = vec![ModuleImage { file_name: "client.dll".to_string(), base: 0, memory: &twice }];
    assert_eq!(
        SignatureScanner::scan_signature(
            &area("on_ground_dec", SignatureAreaType::CaptureGroupIndex(1)),
            &sigs,
            &images2,
            Platform::Windows
        ),
        Err(ScanError::MatchCount(2))
    );
    let empty: Vec<u8> = vec![];
    let images3 = vec![ModuleImage { file_name: "client.dll".to_string(), base: 0, memory: &empty }];
    assert_eq!(
        SignatureScanner::scan_signature(
            &area("on_ground_dec", SignatureAreaType::CaptureGroupIndex(1)),
            &sigs,
            &images3,
            Platform::Windows
        ),
        Err(ScanError::MatchCount(0))
    );
}

#[test]
fn addresses_are_little_endian_machine_words() {
    let width = (usize::BITS / 8) as usize;
    let mut bytes = vec![0u8; width];
    bytes[0] = 0x78;
    bytes[1] = 0x56;
    bytes[2] = 0x34;
    bytes[3] = 0x12;
    assert_eq!(address_from_le_bytes(&bytes), Some(0x1234_5678));
    assert_eq!(address_from_le_bytes(&bytes[..width - 1]), None);
    assert_eq!(address_from_le_bytes(&[]), None);
    let all = vec![0xFFu8; width];
    assert_eq!(address_from_le_bytes(&all), Some(usize::MAX));
}

#[test]
fn fixed_tables_stop_at_the_first_unreadable_variable() {
    let code = client_code();
    let images = vec![ModuleImage { file_name: "client.dll".to_string(), base: 0x40_0000, memory: &code }];
    match MemVars::read(&images, Platform::Windows) {
        Err(MemVarsError::Read(e)) => {
            if usize::BITS == 32 {
                // on_ground and do_jump are read; the table has no area for do_attack_1
                assert_eq!(e, ReadError { field: MemVarField::DoAttack1, kind: ReadErrorKind::AreaNotFound });
            } else {
                // on_ground holds a 32-bit address, not a machine word
                assert_eq!(e, ReadError { field: MemVarField::OnGround, kind: ReadErrorKind::AddressSize(4) });
            }
        }
        _ => panic!("expected a read error"),
    }
}

#[test]
fn read_fails_without_the_module() {
    let images: Vec<ModuleImage> = vec![];
    match MemVars::read(&images, Platform::Windows) {
        Err(MemVarsError::Read(e)) => assert_eq!(
            e,
            ReadError { field: MemVarField::OnGroundOpDec, kind: ReadErrorKind::Scan(ScanError::ModuleNotFound) }
        ),
        _ => panic!("expected a read error"),
    }
}

#[test]
fn read_with_full_tables() {
    let width = (usize::BITS / 8) as usize;
    let mut code = vec![0xAAu8, 0xBB];
    for i in 0..width {
        code.push(0x10 + i as u8);
    }
    code.push(0xCC);
    let wildcards = vec!["??"; width].join(" ");
    let text = format!("AA BB {} CC", wildcards);
    let fields = [
        "on_ground_op_dec", "on_ground_op_inc", "on_ground", "do_jump", "do_attack_1", "eye_pos",
        "angles_op_read", "angles", "localplayer_base", "radar_struct_base",
    ];
    let mut areas = Vec::new();
    for (i, f) in fields.iter().enumerate() {
        let kind = if i == 0 || i == 1 || i == 6 {
            SignatureAreaType::Range(Range { start: 0, end: 3 })
        } else {
            SignatureAreaType::CaptureGroupIndex(1)
        };
        areas.push(NamedArea { description: f.to_string(), area: area("s", kind) });
    }
    let areas = SignatureAreas::from_vec(areas);
    let images = vec![ModuleImage { file_name: "engine.so".to_string(), base: 0x1000, memory: &code }];
    let signatures = Signatures::from_vec(vec![NamedSignature {
        name: "s".to_string(),
        signature: Signature::new(ModuleName::Engine, &text).unwrap(),
    }]);
    let m = MemVars::read_with(&signatures, &areas, &images, Platform::Linux).unwrap();
    let mut expected: usize = 0;
    for i in (0..width).rev() {
        expected = expected * 256 + (0x10 + i);
    }
    assert_eq!(m.on_ground_op_dec, (0x1000, 3));
    assert_eq!(m.angles_op_read, (0x1000, 3));
    assert_eq!(m.on_ground, expected);
    assert_eq!(m.radar_struct_base, expected);
}

#[test]
fn on_ground_vars_read_with_the_fixed_tables() {
    let code = client_code();
    let images = vec![ModuleImage { file_name: "client.dll".to_string(), base: 0x40_0000, memory: &code }];
    let res = OnGroundVars::read(&images, Platform::Windows);
    if usize::BITS == 32 {
        let vars = res.unwrap();
        assert_eq!(vars.on_ground_op_dec, (0x40_0004, 6));
        assert_eq!(vars.on_ground_op_inc, (0x40_0014, 6));
        assert_eq!(vars.on_ground, 0x4433_2211);
        assert_eq!(vars.do_jump, 0xDDCC_BBAA);
    } else {
        match res {
            Err(MemVarsError::Read(e)) => assert_eq!(
                e,
                ReadError { field: MemVarField::OnGround, kind: ReadErrorKind::AddressSize(4) }
            ),
            _ => panic!("expected a read error"),
        }
    }
}

#[test]
fn signatures_are_found_by_name() {
    let sigs = Signatures::new().unwrap();
    assert_eq!(sigs.get(&"do_jump_update".to_string()).unwrap().module(), ModuleName::Client);
    assert!(sigs.get(&"do_jump".to_string()).is_none());
    assert!(sigs.contains_name(&"on_ground_inc".to_string()));
}

#[test]
fn fixed_tables_have_distinct_names() {
    let sigs = Signatures::new().unwrap();
    let areas = SignatureAreas::new(&sigs).unwrap();
    assert!(areas.get(&"on_ground".to_string()).is_some());
    assert!(areas.get(&"do_attack_1".to_string()).is_none());
}
