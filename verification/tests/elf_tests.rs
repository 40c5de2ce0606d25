use udbg_core::elf::{ElfHelper, ElfSym, ParsedImage, RawSym, SymRecord};

fn raw(name_off: usize, value: u64, shndx: usize, bind: u8, ty: u8) -> RawSym {
    RawSym {
        st_name: name_off,
        st_info: (bind << 4) | (ty & 0x0f),
        st_other: 0,
        st_shndx: shndx,
        st_value: value,
        st_size: 0,
    }
}

fn rec(sym: RawSym, dyn_name: Option<&str>, static_name: Option<&str>) -> SymRecord {
    SymRecord {
        sym,
        dyn_name: dyn_name.map(|s| s.to_string()),
        static_name: static_name.map(|s| s.to_string()),
    }
}

fn helper(dynsyms: Vec<SymRecord>, syms: Vec<SymRecord>) -> ElfHelper {
    ElfHelper(ParsedImage { machine: 62, entry: 0x1000, dynsyms, syms })
}

/// A minimal but valid 64-bit little-endian image: header only, no
/// program or section headers and hence no symbols.
fn minimal_image(machine: u16, entry: u64) -> Vec<u8> {
    let mut h = vec![0u8; 64];
    h[0] = 0x7f;
    h[1] = b'E';
    h[2] = b'L';
    h[3] = b'F';
    h[4] = 2; // 64-bit
    h[5] = 1; // little endian
    h[6] = 1; // version
    h[16] = 2; // ET_EXEC
    h[18] = (machine & 0xff) as u8;
    h[19] = (machine >> 8) as u8;
    h[20] = 1; // e_version
    let e = entry.to_le_bytes();
    for i in 0..8 {
        h[24 + i] = e[i];
    }
    h[52] = 64; // e_ehsize
    h
}

#[test]
fn zero_value_entries_are_excluded_everywhere() {
    let zero = raw(5, 0, 1, 1, 2);
    let good = raw(9, 0x400, 1, 1, 2);
    let h = helper(
        vec![rec(zero, Some("skipped"), Some("skipped")), rec(good, Some("kept"), None)],
        vec![rec(zero, None, Some("skipped")), rec(good, None, Some("kept"))],
    );
    let dynsyms = h.enum_dynsym();
    assert_eq!(dynsyms.len(), 1);
    assert_eq!(dynsyms[0].name, "kept");
    let syms = h.enum_symbol();
    assert_eq!(syms.len(), 1);
    assert_eq!(syms[0].name, "kept");
    let exports = h.enum_export();
    assert_eq!(exports.len(), 1);
    assert_eq!(exports[0].name, "kept");
}

#[test]
fn import_and_export_are_mutually_exclusive() {
    // A textbook import entry: undefined section, value 0, named,
    // global function.  Classifies as an import and not as an export.
    let imp = ElfSym { sym: raw(5, 0, 0, 1, 2), name: "malloc".to_string() };
    assert!(imp.is_import());
    assert!(!imp.is_export());
    // A textbook export: defined, valued, global function.
    let exp = ElfSym { sym: raw(9, 0x400, 1, 1, 2), name: "open".to_string() };
    assert!(exp.is_export());
    assert!(!exp.is_import());
}

#[test]
fn import_classification_is_unreachable_through_enumeration() {
    // The value-0 filter runs before classification, so an entry that
    // would classify as an import never comes out of an enumeration:
    // everything enumerated reports is_import() == false.  This
    // documents the import/export inconsistency rather than fixing it.
    let imp = raw(5, 0, 0, 1, 2);
    let exp = raw(9, 0x400, 1, 1, 2);
    let h = helper(
        vec![rec(imp, Some("malloc"), None), rec(exp, Some("open"), None)],
        vec![],
    );
    let dynsyms = h.enum_dynsym();
    assert_eq!(dynsyms.len(), 1);
    for s in dynsyms.iter() {
        assert!(!s.is_import());
    }
}

#[test]
fn dynamic_names_fall_back_to_the_static_table() {
    let s = raw(7, 0x500, 1, 1, 2);
    let h = helper(vec![rec(s, None, Some("fallback"))], vec![]);
    let dynsyms = h.enum_dynsym();
    assert_eq!(dynsyms.len(), 1);
    assert_eq!(dynsyms[0].name, "fallback");
}

#[test]
fn weak_object_exports_are_kept_and_locals_are_not() {
    let weak_obj = raw(1, 0x600, 2, 2, 1);
    let local_fn = raw(2, 0x700, 2, 0, 2);
    let h = helper(
        vec![rec(weak_obj, Some("environ"), None), rec(local_fn, Some("local"), None)],
        vec![],
    );
    let exports = h.enum_export();
    assert_eq!(exports.len(), 1);
    assert_eq!(exports[0].name, "environ");
    // both still enumerate as dynamic symbols
    assert_eq!(h.enum_dynsym().len(), 2);
}

#[test]
fn get_export_takes_the_first_of_duplicate_names() {
    let first = raw(1, 0x100, 1, 1, 2);
    let second = raw(1, 0x200, 1, 1, 2);
    let h = helper(
        vec![rec(first, Some("dup"), None), rec(second, Some("dup"), None)],
        vec![],
    );
    let found = h.get_export("dup").expect("export must be found");
    assert_eq!(found.offset(), 0x100);
    assert!(h.get_export("absent").is_none());
}

#[test]
fn arch_name_maps_the_five_known_machines() {
    assert_eq!(ElfHelper::arch_name(3), Some("x86"));
    assert_eq!(ElfHelper::arch_name(7), Some("x86"));
    assert_eq!(ElfHelper::arch_name(19), Some("x86"));
    assert_eq!(ElfHelper::arch_name(62), Some("x86_64"));
    assert_eq!(ElfHelper::arch_name(8), Some("mips"));
    assert_eq!(ElfHelper::arch_name(40), Some("arm"));
    assert_eq!(ElfHelper::arch_name(183), Some("arm64"));
    assert_eq!(ElfHelper::arch_name(0xffff), None);
}

#[test]
fn parse_reads_header_fields_from_real_bytes() {
    let img = minimal_image(62, 0x401000);
    let h = ElfHelper::parse(&img).expect("minimal image must parse");
    assert_eq!(h.entry(), 0x401000);
    assert_eq!(h.arch(), Some("x86_64"));
    assert_eq!(h.enum_dynsym().len(), 0);
}

#[test]
fn parse_rejects_non_image_bytes() {
    assert!(ElfHelper::parse(b"not an image at all").is_none());
    assert!(ElfHelper::parse(&[]).is_none());
}
