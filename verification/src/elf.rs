//! Executable-image symbol analysis: parse an image's symbol tables and
//! classify each entry as an import, an export, or a plain debug symbol.
//!
//! Parsing the raw bytes is delegated to the `goblin` crate; everything
//! after the parse — name resolution fallback, the nonzero-value filter,
//! classification, enumeration and lookup — is verified here.

use vstd::prelude::*;

use crate::strutil::str_eq;

verus! {

pub const SHN_UNDEF: usize = 0;

pub const STB_GLOBAL: u8 = 1;

pub const STB_WEAK: u8 = 2;

pub const STT_OBJECT: u8 = 1;

pub const STT_FUNC: u8 = 2;

pub const STT_GNU_IFUNC: u8 = 10;

pub const EM_386: u16 = 3;

pub const EM_860: u16 = 7;

pub const EM_MIPS: u16 = 8;

pub const EM_960: u16 = 19;

pub const EM_ARM: u16 = 40;

pub const EM_X86_64: u16 = 62;

pub const EM_AARCH64: u16 = 183;

/// One raw symbol-table entry, in the unified width goblin reports.
#[derive(Clone, Copy, PartialEq, Eq, Structural, Debug)]
pub struct RawSym {
    pub st_name: usize,
    pub st_info: u8,
    pub st_other: u8,
    pub st_shndx: usize,
    pub st_value: u64,
    pub st_size: u64,
}

impl RawSym {
    /// The bind half of the info byte.
    pub open spec fn spec_bind(self) -> u8 {
        self.st_info >> 4
    }

    /// The type half of the info byte.
    pub open spec fn spec_type(self) -> u8 {
        self.st_info & 0x0f
    }

    pub fn st_bind(&self) -> (r: u8)
        ensures
            r == self.spec_bind(),
    {
        self.st_info >> 4
    }

    pub fn st_type(&self) -> (r: u8)
        ensures
            r == self.spec_type(),
    {
        self.st_info & 0x0f
    }
}

/// A raw entry together with its name as resolved in the dynamic and in
/// the static string table (`None` where the offset resolves in neither).
pub struct SymRecord {
    pub sym: RawSym,
    pub dyn_name: Option<String>,
    pub static_name: Option<String>,
}

#[verifier::ext_equal]
pub struct SymRecordV {
    pub sym: RawSym,
    pub dyn_name: Option<Seq<char>>,
    pub static_name: Option<Seq<char>>,
}

impl View for SymRecord {
    type V = SymRecordV;

    open spec fn view(&self) -> SymRecordV {
        SymRecordV {
            sym: self.sym,
            dyn_name: self.dyn_name.deep_view(),
            static_name: self.static_name.deep_view(),
        }
    }
}

impl DeepView for SymRecord {
    type V = SymRecordV;

    open spec fn deep_view(&self) -> SymRecordV {
        self.view()
    }
}

/// An executable image parsed into its header fields and symbol tables.
pub struct ParsedImage {
    pub machine: u16,
    pub entry: u64,
    pub dynsyms: Vec<SymRecord>,
    pub syms: Vec<SymRecord>,
}

#[verifier::ext_equal]
pub struct ImageV {
    pub machine: u16,
    pub entry: u64,
    pub dynsyms: Seq<SymRecordV>,
    pub syms: Seq<SymRecordV>,
}

impl View for ParsedImage {
    type V = ImageV;

    open spec fn view(&self) -> ImageV {
        ImageV {
            machine: self.machine,
            entry: self.entry,
            dynsyms: self.dynsyms.deep_view(),
            syms: self.syms.deep_view(),
        }
    }
}

/// What parsing a byte sequence as an executable image yields: a
/// function of the bytes alone (`None` when they are not an image).
pub uninterp spec fn image_of(data: Seq<u8>) -> Option<ImageV>;

/// Relies on goblin's `Elf::parse` and `Strtab::get_at`: the header
/// fields and the symbol entries, each with its name resolved in the
/// dynamic and in the static string table, depend on the bytes alone.
#[verifier::external_body]
fn parse_image(data: &[u8]) -> (r: Option<ParsedImage>)
    ensures
        r is Some <==> image_of(data@) is Some,
        r matches Some(img) ==> Some(img@) == image_of(data@),
{
    let elf = goblin::elf::Elf::parse(data).ok()?;
    let conv = |s: goblin::elf::sym::Sym| SymRecord {
        sym: RawSym {
            st_name: s.st_name, st_info: s.st_info, st_other: s.st_other,
            st_shndx: s.st_shndx, st_value: s.st_value, st_size: s.st_size,
        },
        dyn_name: elf.dynstrtab.get_at(s.st_name).map(|n| n.to_string()),
        static_name: elf.strtab.get_at(s.st_name).map(|n| n.to_string()),
    };
    Some(ParsedImage {
        machine: elf.header.e_machine, entry: elf.entry,
        dynsyms: elf.dynsyms.iter().map(conv).collect(),
        syms: elf.syms.iter().map(conv).collect(),
    })
}

/// A classified symbol: the raw entry plus its resolved name.
pub struct ElfSym {
    pub sym: RawSym,
    pub name: String,
}

#[verifier::ext_equal]
pub struct ElfSymV {
    pub sym: RawSym,
    pub name: Seq<char>,
}

impl View for ElfSym {
    type V = ElfSymV;

    open spec fn view(&self) -> ElfSymV {
        ElfSymV { sym: self.sym, name: self.name@ }
    }
}

impl DeepView for ElfSym {
    type V = ElfSymV;

    open spec fn deep_view(&self) -> ElfSymV {
        self.view()
    }
}

/// An entry is an import when it is undefined (no section, no value)
/// but named, with global or weak bind and a function, indirect
/// function or object type.
pub open spec fn spec_is_import(s: RawSym) -> bool {
    &&& s.st_shndx == SHN_UNDEF
    &&& s.st_value == 0
    &&& s.st_name != 0
    &&& (s.spec_bind() == STB_GLOBAL || s.spec_bind() == STB_WEAK)
    &&& (s.spec_type() == STT_FUNC || s.spec_type() == STT_GNU_IFUNC || s.spec_type()
        == STT_OBJECT)
}

/// An entry is an export when it is defined in a section with an
/// address, with global or weak bind and a function, indirect function
/// or object type.
pub open spec fn spec_is_export(s: RawSym) -> bool {
    &&& s.st_shndx != SHN_UNDEF
    &&& s.st_value != 0
    &&& (s.spec_bind() == STB_GLOBAL || s.spec_bind() == STB_WEAK)
    &&& (s.spec_type() == STT_FUNC || s.spec_type() == STT_GNU_IFUNC || s.spec_type()
        == STT_OBJECT)
}

/// Name resolution with the nonzero-value filter: an entry becomes a
/// symbol only when its value is nonzero and its name resolves.
pub open spec fn spec_from_raw(name: Option<Seq<char>>, s: RawSym) -> Option<ElfSymV> {
    if s.st_value > 0 {
        match name {
            Some(n) => Some(ElfSymV { sym: s, name: n }),
            None => None,
        }
    } else {
        None
    }
}

/// Dynamic-table resolution: the dynamic string table first, the static
/// one as fallback.
pub open spec fn spec_from_dynsyms(rec: SymRecordV) -> Option<ElfSymV> {
    match spec_from_raw(rec.dyn_name, rec.sym) {
        Some(e) => Some(e),
        None => spec_from_raw(rec.static_name, rec.sym),
    }
}

/// The symbols that dynamic-table enumeration yields, in table order.
pub open spec fn dynsym_list(recs: Seq<SymRecordV>) -> Seq<ElfSymV>
    decreases recs.len(),
{
    if recs.len() == 0 {
        Seq::empty()
    } else {
        let rest = dynsym_list(recs.drop_last());
        match spec_from_dynsyms(recs.last()) {
            Some(e) => rest.push(e),
            None => rest,
        }
    }
}

/// The symbols that static-table enumeration yields, in table order.
pub open spec fn static_sym_list(recs: Seq<SymRecordV>) -> Seq<ElfSymV>
    decreases recs.len(),
{
    if recs.len() == 0 {
        Seq::empty()
    } else {
        let rest = static_sym_list(recs.drop_last());
        match spec_from_raw(recs.last().static_name, recs.last().sym) {
            Some(e) => rest.push(e),
            None => rest,
        }
    }
}

/// The dynamic symbols that classify as exports, in table order.
pub open spec fn export_list(recs: Seq<SymRecordV>) -> Seq<ElfSymV>
    decreases recs.len(),
{
    if recs.len() == 0 {
        Seq::empty()
    } else {
        let rest = export_list(recs.drop_last());
        match spec_from_dynsyms(recs.last()) {
            Some(e) => if spec_is_export(e.sym) {
                rest.push(e)
            } else {
                rest
            },
            None => rest,
        }
    }
}

/// The first export whose name is `name`, if any.
pub open spec fn find_first_export(exports: Seq<ElfSymV>, name: Seq<char>) -> Option<ElfSymV>
    decreases exports.len(),
{
    if exports.len() == 0 {
        None
    } else if exports[0].name == name {
        Some(exports[0])
    } else {
        find_first_export(exports.drop_first(), name)
    }
}

/// The architecture tag for a machine code: one of the five supported
/// machines, or nothing for any other code.
pub open spec fn spec_arch_name(m: u16) -> Option<Seq<char>> {
    if m == EM_386 || m == EM_860 || m == EM_960 {
        Some("x86"@)
    } else if m == EM_X86_64 {
        Some("x86_64"@)
    } else if m == EM_MIPS {
        Some("mips"@)
    } else if m == EM_ARM {
        Some("arm"@)
    } else if m == EM_AARCH64 {
        Some("arm64"@)
    } else {
        None
    }
}

impl ElfSym {
    /// The entry's virtual address, as an offset.
    pub fn offset(&self) -> (r: usize)
        ensures
            r == self.sym.st_value as usize,
    {
        self.sym.st_value as usize
    }

    /// Resolve an entry against one string table's answer; entries with
    /// value 0 are skipped here, before any classification.
    pub fn from_raw(name: &Option<String>, s: &RawSym) -> (r: Option<ElfSym>)
        ensures
            r.deep_view() == spec_from_raw(name.deep_view(), *s),
    {
        if s.st_value > 0 {
            match name {
                Some(n) => Some(ElfSym { sym: *s, name: n.clone() }),
                None => None,
            }
        } else {
            None
        }
    }

    /// Resolve a dynamic-table entry: the dynamic string table first,
    /// falling back to the static one when that lookup fails.
    pub fn from_dynsyms(rec: &SymRecord) -> (r: Option<ElfSym>)
        ensures
            r.deep_view() == spec_from_dynsyms(rec@),
    {
        match Self::from_raw(&rec.dyn_name, &rec.sym) {
            Some(e) => Some(e),
            None => Self::from_raw(&rec.static_name, &rec.sym),
        }
    }

    pub fn is_import(&self) -> (r: bool)
        ensures
            r == spec_is_import(self.sym),
    {
        self.sym.st_shndx == SHN_UNDEF && self.sym.st_value == 0 && self.sym.st_name != 0 && {
            let b = self.sym.st_bind();
            b == STB_GLOBAL || b == STB_WEAK
        } && {
            let t = self.sym.st_type();
            t == STT_FUNC || t == STT_GNU_IFUNC || t == STT_OBJECT
        }
    }

    pub fn is_export(&self) -> (r: bool)
        ensures
            r == spec_is_export(self.sym),
    {
        self.sym.st_shndx != SHN_UNDEF && self.sym.st_value != 0 && {
            let b = self.sym.st_bind();
            b == STB_GLOBAL || b == STB_WEAK
        } && {
            let t = self.sym.st_type();
            t == STT_FUNC || t == STT_GNU_IFUNC || t == STT_OBJECT
        }
    }
}

/// A parsed image with the verified enumeration and lookup operations.
pub struct ElfHelper(pub ParsedImage);

impl ElfHelper {
    /// Parse image bytes; `None` on anything goblin rejects, with no
    /// finer failure report.
    pub fn parse(data: &[u8]) -> (r: Option<ElfHelper>)
        ensures
            r is Some <==> image_of(data@) is Some,
            r matches Some(h) ==> Some(h.0@) == image_of(data@),
    {
        match parse_image(data) {
            Some(img) => Some(ElfHelper(img)),
            None => None,
        }
    }

    /// Dynamic symbols, names resolved with static-table fallback.
    pub fn enum_dynsym(&self) -> (r: Vec<ElfSym>)
        ensures
            r.deep_view() == dynsym_list(self.0@.dynsyms),
    {
        let mut out: Vec<ElfSym> = Vec::new();
        let n = self.0.dynsyms.len();
        let mut i: usize = 0;
        while i < n
            invariant
                0 <= i <= n,
                n == self.0.dynsyms@.len(),
                out.deep_view() =~= dynsym_list(self.0@.dynsyms.subrange(0, i as int)),
            decreases n - i,
        {
            proof {
                assert(self.0@.dynsyms.subrange(0, i + 1).drop_last() =~= self.0@.dynsyms.subrange(
                    0,
                    i as int,
                ));
                assert(self.0@.dynsyms.subrange(0, i + 1).last() == self.0@.dynsyms[i as int]);
            }
            match ElfSym::from_dynsyms(&self.0.dynsyms[i]) {
                Some(e) => out.push(e),
                None => (),
            }
            i = i + 1;
        }
        proof {
            assert(self.0@.dynsyms.subrange(0, self.0@.dynsyms.len() as int) =~= self.0@.dynsyms);
        }
        out
    }

    /// Static-table symbols, resolved against the static string table
    /// only.
    pub fn enum_symbol(&self) -> (r: Vec<ElfSym>)
        ensures
            r.deep_view() == static_sym_list(self.0@.syms),
    {
        let mut out: Vec<ElfSym> = Vec::new();
        let n = self.0.syms.len();
        let mut i: usize = 0;
        while i < n
            invariant
                0 <= i <= n,
                n == self.0.syms@.len(),
                out.deep_view() =~= static_sym_list(self.0@.syms.subrange(0, i as int)),
            decreases n - i,
        {
            proof {
                assert(self.0@.syms.subrange(0, i + 1).drop_last() =~= self.0@.syms.subrange(
                    0,
                    i as int,
                ));
                assert(self.0@.syms.subrange(0, i + 1).last() == self.0@.syms[i as int]);
            }
            match ElfSym::from_raw(&self.0.syms[i].static_name, &self.0.syms[i].sym) {
                Some(e) => out.push(e),
                None => (),
            }
            i = i + 1;
        }
        proof {
            assert(self.0@.syms.subrange(0, self.0@.syms.len() as int) =~= self.0@.syms);
        }
        out
    }

    /// Dynamic symbols that classify as exports.
    pub fn enum_export(&self) -> (r: Vec<ElfSym>)
        ensures
            r.deep_view() == export_list(self.0@.dynsyms),
    {
        let mut out: Vec<ElfSym> = Vec::new();
        let n = self.0.dynsyms.len();
        let mut i: usize = 0;
        while i < n
            invariant
                0 <= i <= n,
                n == self.0.dynsyms@.len(),
                out.deep_view() =~= export_list(self.0@.dynsyms.subrange(0, i as int)),
            decreases n - i,
        {
            proof {
                assert(self.0@.dynsyms.subrange(0, i + 1).drop_last() =~= self.0@.dynsyms.subrange(
                    0,
                    i as int,
                ));
                assert(self.0@.dynsyms.subrange(0, i + 1).last() == self.0@.dynsyms[i as int]);
            }
            match ElfSym::from_dynsyms(&self.0.dynsyms[i]) {
                Some(e) => {
                    if e.is_export() {
                        out.push(e);
                    }
                },
                None => (),
            }
            i = i + 1;
        }
        proof {
            assert(self.0@.dynsyms.subrange(0, self.0@.dynsyms.len() as int) =~= self.0@.dynsyms);
        }
        out
    }

    /// The first export named `name`; names need not be unique, and the
    /// first occurrence in table order is authoritative.
    pub fn get_export(&self, name: &str) -> (r: Option<ElfSym>)
        ensures
            r.deep_view() == find_first_export(export_list(self.0@.dynsyms), name@),
    {
        let exports = self.enum_export();
        let ghost exps = exports.deep_view();
        let n = exports.len();
        let mut i: usize = n;
        let mut found: Option<ElfSym> = None;
        proof {
            assert(exps.skip(n as int) =~= Seq::<ElfSymV>::empty());
        }
        while i > 0
            invariant
                0 <= i <= n,
                n == exps.len(),
                exps == exports.deep_view(),
                n == exports@.len(),
                found.deep_view() == find_first_export(exps.skip(i as int), name@),
            decreases i,
        {
            i = i - 1;
            let e = &exports[i];
            proof {
                assert(exps.skip(i as int)[0] == exps[i as int]);
                assert(exps.skip(i as int).drop_first() =~= exps.skip(i + 1));
            }
            if str_eq(e.name.as_str(), name) {
                found = Some(ElfSym { sym: e.sym, name: e.name.clone() });
            }
        }
        proof {
            assert(exps.skip(0) =~= exps);
        }
        found
    }

    /// The architecture tag of the parsed header's machine code.
    pub fn arch(&self) -> (r: Option<&'static str>)
        ensures
            r is Some <==> spec_arch_name(self.0.machine) is Some,
            r matches Some(s) ==> Some(s@) == spec_arch_name(self.0.machine),
    {
        Self::arch_name(self.0.machine)
    }

    /// The image's entry point.
    pub fn entry(&self) -> (r: u64)
        ensures
            r == self.0.entry,
    {
        self.0.entry
    }

    /// Map a machine code to its architecture tag; unknown codes yield
    /// nothing rather than an error.
    pub fn arch_name(m: u16) -> (r: Option<&'static str>)
        ensures
            r is Some <==> spec_arch_name(m) is Some,
            r matches Some(s) ==> Some(s@) == spec_arch_name(m),
    {
        if m == EM_386 || m == EM_860 || m == EM_960 {
            Some("x86")
        } else if m == EM_X86_64 {
            Some("x86_64")
        } else if m == EM_MIPS {
            Some("mips")
        } else if m == EM_ARM {
            Some("arm")
        } else if m == EM_AARCH64 {
            Some("arm64")
        } else {
            None
        }
    }
}

/// Law: every symbol that any enumeration yields carries a nonzero
/// value — the value-0 filter runs before classification, so such
/// entries appear in no enumeration.
pub proof fn lemma_enum_excludes_zero_value(recs: Seq<SymRecordV>)
    ensures
        forall|i: int|
            0 <= i < dynsym_list(recs).len() ==> (#[trigger] dynsym_list(recs)[i]).sym.st_value > 0,
        forall|i: int|
            0 <= i < static_sym_list(recs).len() ==> (#[trigger] static_sym_list(
                recs,
            )[i]).sym.st_value > 0,
        forall|i: int|
            0 <= i < export_list(recs).len() ==> (#[trigger] export_list(recs)[i]).sym.st_value
                > 0,
    decreases recs.len(),
{
    if recs.len() > 0 {
        lemma_enum_excludes_zero_value(recs.drop_last());
        assert forall|i: int| 0 <= i < dynsym_list(recs).len() implies (#[trigger] dynsym_list(
            recs,
        )[i]).sym.st_value > 0 by {
            let rest = dynsym_list(recs.drop_last());
            if i < rest.len() {
                assert(dynsym_list(recs)[i] == rest[i]);
            } else {
                assert(dynsym_list(recs)[i] == spec_from_dynsyms(recs.last()).unwrap());
            }
        }
        assert forall|i: int| 0 <= i < static_sym_list(recs).len() implies (
        #[trigger] static_sym_list(recs)[i]).sym.st_value > 0 by {
            let rest = static_sym_list(recs.drop_last());
            if i < rest.len() {
                assert(static_sym_list(recs)[i] == rest[i]);
            } else {
                assert(static_sym_list(recs)[i] == spec_from_raw(
                    recs.last().static_name,
                    recs.last().sym,
                ).unwrap());
            }
        }
        assert forall|i: int| 0 <= i < export_list(recs).len() implies (#[trigger] export_list(
            recs,
        )[i]).sym.st_value > 0 by {
            let rest = export_list(recs.drop_last());
            if i < rest.len() {
                assert(export_list(recs)[i] == rest[i]);
            } else {
                assert(export_list(recs)[i] == spec_from_dynsyms(recs.last()).unwrap());
            }
        }
    }
}

/// Law: no entry classifies as both an import and an export; and an
/// entry with a nonzero value never classifies as an import, so on
/// everything the enumerations yield the import class is empty.
pub proof fn lemma_import_export_exclusive(s: RawSym)
    ensures
        !(spec_is_import(s) && spec_is_export(s)),
        s.st_value != 0 ==> !spec_is_import(s),
{
}

/// Law: the import classification is unreachable through enumeration —
/// every enumerated symbol has a nonzero value, and an import requires
/// value 0.
pub proof fn lemma_enumerated_never_import(recs: Seq<SymRecordV>)
    ensures
        forall|i: int|
            0 <= i < dynsym_list(recs).len() ==> !spec_is_import(
                (#[trigger] dynsym_list(recs)[i]).sym,
            ),
        forall|i: int|
            0 <= i < static_sym_list(recs).len() ==> !spec_is_import(
                (#[trigger] static_sym_list(recs)[i]).sym,
            ),
{
    lemma_enum_excludes_zero_value(recs);
}

} // verus!
