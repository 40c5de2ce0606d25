use udbg_core::memory::parse_map_line;
use udbg_core::module::{
    coalesce_modules, find_module_by_name, Module, ModuleData, SymbolStatus,
};
use udbg_core::process::Process;

fn minimal_image() -> Vec<u8> {
    let mut h = vec![0u8; 64];
    h[0] = 0x7f;
    h[1] = b'E';
    h[2] = b'L';
    h[3] = b'F';
    h[4] = 2;
    h[5] = 1;
    h[6] = 1;
    h[16] = 2;
    h[18] = 62;
    h[20] = 1;
    h[52] = 64;
    h
}

#[test]
fn map_line_parses_addresses_permissions_and_path() {
    let r = parse_map_line(b"00400000-00401000 r-xp 00000000 08:01 123 /usr/bin/ls")
        .expect("line must parse");
    assert_eq!(r.base, 0x400000);
    assert_eq!(r.size, 0x1000);
    assert_eq!(r.usage, "r-xp");
    assert_eq!(r.path, "/usr/bin/ls");
}

#[test]
fn map_line_of_anonymous_region_has_empty_path() {
    let r = parse_map_line(b"7f0000000000-7f0000001000 rw-p 00000000 00:00 0").expect("must parse");
    assert_eq!(r.base, 0x7f0000000000);
    assert_eq!(r.size, 0x1000);
    assert_eq!(r.usage, "rw-p");
    assert_eq!(r.path, "");
}

#[test]
fn malformed_map_lines_are_skipped() {
    let p = Process::from_pid(1, true).expect("must exist");
    let maps = b"garbage line\n00400000-00401000 r-xp 00000000 08:01 1 /bin/a\n".to_vec();
    let regions = p.enum_memory(Some(&maps)).expect("maps were readable");
    assert_eq!(regions.len(), 1);
    assert_eq!(regions[0].base, 0x400000);
}

#[test]
fn enum_memory_reports_only_the_map_read_failure() {
    let p = Process::from_pid(1, true).expect("must exist");
    assert!(p.enum_memory(None).is_err());
    assert!(p.enum_memory(Some(&b"".to_vec())).is_ok());
}

#[test]
fn three_contiguous_regions_of_one_image_coalesce_into_one_module() {
    let p = Process::from_pid(1, true).expect("must exist");
    let maps = b"00400000-00401000 r-xp 00000000 08:01 1 /usr/bin/ls\n\
00401000-00403000 r--p 00001000 08:01 1 /usr/bin/ls\n\
00403000-00404000 rw-p 00003000 08:01 1 /usr/bin/ls\n"
        .to_vec();
    let modules = p.enum_module(Some(&maps)).expect("maps were readable");
    assert_eq!(modules.len(), 1);
    assert_eq!(modules[0].data.base, 0x400000);
    // the size is the sum of the three region spans
    assert_eq!(modules[0].data.size, 0x1000 + 0x2000 + 0x1000);
    assert_eq!(modules[0].data.usage, "r-xp");
    assert_eq!(modules[0].data.name, "ls");
    assert_eq!(modules[0].data.path, "/usr/bin/ls");
    assert_eq!(modules[0].symbol_status(), SymbolStatus::Unload);
}

#[test]
fn an_anonymous_region_breaks_a_run_and_a_new_path_opens_a_module() {
    let p = Process::from_pid(1, true).expect("must exist");
    let maps = b"1000-2000 r-xp 00000000 08:01 1 /lib/a.so\n\
3000-4000 rw-p 00000000 00:00 0\n\
4000-5000 r--p 00001000 08:01 1 /lib/a.so\n\
5000-6000 r-xp 00000000 08:01 2 /lib/b.so\n"
        .to_vec();
    let modules = p.enum_module(Some(&maps)).expect("maps were readable");
    assert_eq!(modules.len(), 3);
    assert_eq!(modules[0].data.name, "a.so");
    assert_eq!(modules[0].data.size, 0x1000);
    assert_eq!(modules[1].data.name, "a.so");
    assert_eq!(modules[2].data.name, "b.so");
}

#[test]
fn find_by_name_takes_the_first_match() {
    let mk = |name: &str, base: u64| {
        Module::new(ModuleData {
            base,
            size: 0x1000,
            name: name.to_string(),
            path: format!("/lib/{}", name),
            usage: "r-xp".to_string(),
        })
    };
    let modules = vec![mk("a.so", 0x1000), mk("dup.so", 0x2000), mk("dup.so", 0x3000)];
    assert_eq!(find_module_by_name(&modules, "dup.so"), Some(1));
    assert_eq!(find_module_by_name(&modules, "a.so"), Some(0));
    assert_eq!(find_module_by_name(&modules, "c.so"), None);
}

#[test]
fn symbol_cache_loads_once_and_stays_complete() {
    let mut m = Module::new(ModuleData {
        base: 0x400000,
        size: 0x1000,
        name: "a".to_string(),
        path: "/bin/a".to_string(),
        usage: "r-xp".to_string(),
    });
    assert_eq!(m.symbol_status(), SymbolStatus::Unload);
    assert!(m.symbols_data().is_none());
    // a readable image publishes the complete data in one step
    let img = minimal_image();
    assert_eq!(m.load_symbols(&img), SymbolStatus::Loaded);
    assert_eq!(m.symbol_status(), SymbolStatus::Loaded);
    let sd = m.symbols_data().expect("cache must be published");
    assert_eq!(sd.symbols.len(), 0);
    assert_eq!(sd.exports.len(), 0);
    // a second load leaves the published cache untouched
    assert_eq!(m.load_symbols(b"junk"), SymbolStatus::Loaded);
    assert_eq!(m.symbol_status(), SymbolStatus::Loaded);
}

#[test]
fn failed_parse_leaves_the_module_unloaded() {
    let mut m = Module::new(ModuleData {
        base: 0,
        size: 0,
        name: "x".to_string(),
        path: "/x".to_string(),
        usage: "r-xp".to_string(),
    });
    assert_eq!(m.load_symbols(b"not an image"), SymbolStatus::Unload);
    assert_eq!(m.symbol_status(), SymbolStatus::Unload);
    assert!(m.symbols_data().is_none());
}
