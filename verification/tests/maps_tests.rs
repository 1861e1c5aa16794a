use mince::mappings::{find_module, module_span, IntoIter, ModuleMapping, Segment};
use mince::module_maps::{self as maps, Module, ModuleMap, RegionInfo};
use mince::paths::{get_module_file_name, path_file_name_range};

fn mapping(name: &str, base: usize) -> ModuleMapping {
    ModuleMapping { base, size: 0x100, file_name: name.to_string() }
}

#[test]
fn find_module_takes_the_first_accepted_mapping() {
    let it = IntoIter::new(vec![mapping("a.so", 1), mapping("client.so", 2), mapping("client.so", 3)]);
    let found = find_module(it, |m: &ModuleMapping| m.file_name == "client.so").unwrap();
    assert_eq!(found.base, 2);
    let it = IntoIter::new(vec![mapping("a.so", 1)]);
    assert!(find_module(it, |m: &ModuleMapping| m.file_name == "client.so").is_none());
}

#[test]
fn into_iter_hands_out_in_order() {
    let mut it = IntoIter::new(vec![mapping("a", 1), mapping("b", 2)]);
    assert_eq!(it.next().unwrap().file_name, "a");
    assert_eq!(it.next().unwrap().file_name, "b");
    assert!(it.next().is_none());
    assert!(it.next().is_none());
}

#[test]
fn module_snapshot_and_lookup() {
    let map = ModuleMap::from_modules(vec![
        Module::new(0x1000, 0x2000, "engine.dll".to_string()),
        Module::new(0x4000, 0x3000, "client.dll".to_string()),
    ]);
    let found = maps::find_module(map, |m: &Module| m.file_name() == "client.dll").unwrap();
    assert_eq!(found.base(), 0x4000);
    assert_eq!(found.memory(), (0x4000, 0x3000));
    assert_eq!(found.file_name(), "client.dll");
    let mut modules = ModuleMap::from_modules(vec![Module::new(1, 1, "x".to_string())]).into_iter();
    assert_eq!(modules.next().unwrap().base(), 1);
    assert!(modules.next().is_none());
}

#[test]
fn region_walk_stops_at_module_end() {
    let module = Module::new(0x4000, 0x3000, "client.dll".to_string());
    let mut regions = module.regions_snapshot();
    assert_eq!(regions.next_region_base(), Some(0x4000));
    let r1 = RegionInfo { base: 0x4000, size: 0x1000 };
    assert_eq!(regions.next(Some(r1)), Some(r1));
    assert_eq!(regions.next_region_base(), Some(0x5000));
    let r2 = RegionInfo { base: 0x5000, size: 0x4000 };
    assert_eq!(regions.next(Some(r2)), Some(r2));
    assert_eq!(regions.next_region_base(), None);
    assert_eq!(regions.next(Some(r2)), None);
}

#[test]
fn region_walk_ends_when_a_query_fails() {
    let module = Module::new(0x4000, 0x3000, "client.dll".to_string());
    let mut regions = module.regions_snapshot();
    assert_eq!(regions.next(None), None);
    assert_eq!(regions.next_region_base(), None);
}

#[test]
fn module_file_names_from_loader_paths() {
    assert_eq!(get_module_file_name(b""), "");
    assert_eq!(get_module_file_name(b"/usr/lib/client.so"), "client.so");
    assert_eq!(get_module_file_name(b"client.so"), "client.so");
    assert_eq!(get_module_file_name(b"/usr/lib/libfoo.so.1"), "libfoo.so.1");
    assert_eq!(get_module_file_name(b"/usr/lib/"), "lib");
    assert_eq!(get_module_file_name(b"/usr/lib/./."), "lib");
    assert_eq!(get_module_file_name(b"a//b"), "b");
    assert_eq!(get_module_file_name(b"/lib/\xffx.so"), "\u{FFFD}x.so");
}

#[test]
fn paths_without_a_file_name() {
    assert_eq!(path_file_name_range(b"/"), None);
    assert_eq!(path_file_name_range(b"."), None);
    assert_eq!(path_file_name_range(b"./"), None);
    assert_eq!(path_file_name_range(b"a/.."), None);
    assert_eq!(path_file_name_range(b""), None);
    assert_eq!(path_file_name_range(b"../a"), Some((3, 4)));
    assert_eq!(path_file_name_range(b".a"), Some((0, 2)));
}

#[test]
fn region_walk_over_three_regions() {
    let module = Module::new(0x1000, 0x300, "m".to_string());
    let mut regions = module.regions_snapshot();
    let mut seen = Vec::new();
    // a region may start before the queried address; the walk goes on from its end
    let answers = [
        RegionInfo { base: 0x0800, size: 0x0900 },
        RegionInfo { base: 0x1100, size: 0x0100 },
        RegionInfo { base: 0x1200, size: 0x0400 },
    ];
    for answer in answers {
        let at = regions.next_region_base().unwrap();
        assert!(answer.base <= at && at < answer.base + answer.size);
        seen.push(regions.next(Some(answer)).unwrap());
    }
    assert_eq!(seen, answers.to_vec());
    assert_eq!(regions.next_region_base(), None);
    assert_eq!(regions.next(Some(answers[0])), None);
}

#[test]
fn module_span_is_the_end_of_the_last_loadable_segment() {
    let segments = [
        Segment { kind: 6, vaddr: 0x40, memsz: 0x9000 },
        Segment { kind: 1, vaddr: 0, memsz: 0x1200 },
        Segment { kind: 1, vaddr: 0x2000, memsz: 0x800 },
        Segment { kind: 2, vaddr: 0x5000, memsz: 0x10 },
    ];
    assert_eq!(module_span(&segments), 0x2800);
    assert_eq!(module_span(&[Segment { kind: 4, vaddr: 0, memsz: 8 }]), 0);
    assert_eq!(module_span(&[]), 0);
}
