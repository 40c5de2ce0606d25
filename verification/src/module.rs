//! Modules: one logical image per run of same-backed map regions, with
//! a lazily-populated symbol cache that is only ever published whole —
//! a reader sees either no cache or a complete one, never a partial
//! build.

use vstd::prelude::*;
use vstd::string::StrSliceExecFns;

use crate::elf::{dynsym_list, export_list, image_of, ElfHelper, ElfSym, ElfSymV};
use crate::memory::{parse_memory_maps, regions_of, MemoryRegion, MemoryRegionV};
use crate::process::Process;
use crate::strutil::str_eq;

verus! {

/// The descriptive fields of one module.
pub struct ModuleData {
    pub base: u64,
    pub size: u64,
    pub name: String,
    pub path: String,
    pub usage: String,
}

#[verifier::ext_equal]
pub struct ModuleDataV {
    pub base: u64,
    pub size: u64,
    pub name: Seq<char>,
    pub path: Seq<char>,
    pub usage: Seq<char>,
}

impl View for ModuleData {
    type V = ModuleDataV;

    open spec fn view(&self) -> ModuleDataV {
        ModuleDataV {
            base: self.base,
            size: self.size,
            name: self.name@,
            path: self.path@,
            usage: self.usage@,
        }
    }
}

impl DeepView for ModuleData {
    type V = ModuleDataV;

    open spec fn deep_view(&self) -> ModuleDataV {
        self.view()
    }
}

/// A module's resolved symbols, published as one complete value.
pub struct SymbolsData {
    pub symbols: Vec<ElfSym>,
    pub exports: Vec<ElfSym>,
}

#[verifier::ext_equal]
pub struct SymbolsDataV {
    pub symbols: Seq<ElfSymV>,
    pub exports: Seq<ElfSymV>,
}

impl View for SymbolsData {
    type V = SymbolsDataV;

    open spec fn view(&self) -> SymbolsDataV {
        SymbolsDataV { symbols: self.symbols.deep_view(), exports: self.exports.deep_view() }
    }
}

impl DeepView for SymbolsData {
    type V = SymbolsDataV;

    open spec fn deep_view(&self) -> SymbolsDataV {
        self.view()
    }
}

impl SymbolsData {
    /// The complete symbol data of a parsed image: its dynamic symbols
    /// and the exports among them.
    pub fn from_image(h: &ElfHelper) -> (r: SymbolsData)
        ensures
            r@.symbols == dynsym_list(h.0@.dynsyms),
            r@.exports == export_list(h.0@.dynsyms),
    {
        SymbolsData { symbols: h.enum_dynsym(), exports: h.enum_export() }
    }
}

/// Whether a module's symbols have been resolved yet; a failed parse
/// leaves the module unloaded indefinitely.
#[derive(Clone, Copy, PartialEq, Eq, Structural, Debug)]
pub enum SymbolStatus {
    Unload,
    Loaded,
}

/// A named image mapped into the process, with its lazily-filled,
/// whole-value-swapped symbol cache.
pub struct Module {
    pub data: ModuleData,
    pub loaded: bool,
    syms: Option<SymbolsData>,
}

#[verifier::ext_equal]
pub struct ModuleV {
    pub data: ModuleDataV,
    pub loaded: bool,
    pub syms: Option<SymbolsDataV>,
}

impl View for Module {
    type V = ModuleV;

    closed spec fn view(&self) -> ModuleV {
        ModuleV { data: self.data@, loaded: self.loaded, syms: self.syms.deep_view() }
    }
}

impl DeepView for Module {
    type V = ModuleV;

    closed spec fn deep_view(&self) -> ModuleV {
        self.view()
    }
}

impl Module {
    /// A freshly enumerated module: no symbol cache yet.
    pub fn new(data: ModuleData) -> (r: Module)
        ensures
            r@.data == data@ && r@.loaded == false && r@.syms is None,
    {
        Module { data, loaded: false, syms: None }
    }

    /// The cache status: `Loaded` exactly when a complete symbol data
    /// value has been published.
    pub fn symbol_status(&self) -> (r: SymbolStatus)
        ensures
            r == SymbolStatus::Loaded <==> self@.syms is Some,
    {
        match &self.syms {
            Some(_) => SymbolStatus::Loaded,
            None => SymbolStatus::Unload,
        }
    }

    /// The published symbol data, if any; never a partial value.
    pub fn symbols_data(&self) -> (r: Option<&SymbolsData>)
        ensures
            match r {
                Some(sd) => self@.syms == Some(sd@),
                None => self@.syms is None,
            },
    {
        self.syms.as_ref()
    }

    /// Resolve and publish the symbol cache from the module's image
    /// bytes, once: a cache already published is reused untouched, a
    /// successful parse publishes the complete data in one swap, and a
    /// failed parse changes nothing, leaving the module unloaded.
    pub fn load_symbols(&mut self, image: &[u8]) -> (r: SymbolStatus)
        ensures
            old(self)@.syms is Some ==> *final(self) == *old(self) && r == SymbolStatus::Loaded,
            old(self)@.syms is None && image_of(image@) is Some ==> final(self)@.data == old(
                self,
            )@.data && final(self)@.loaded == old(self)@.loaded && final(self)@.syms == Some(
                SymbolsDataV {
                    symbols: dynsym_list(image_of(image@).unwrap().dynsyms),
                    exports: export_list(image_of(image@).unwrap().dynsyms),
                },
            ) && r == SymbolStatus::Loaded,
            old(self)@.syms is None && image_of(image@) is None ==> *final(self) == *old(self) && r
                == SymbolStatus::Unload,
    {
        match &self.syms {
            Some(_) => SymbolStatus::Loaded,
            None => {
                match ElfHelper::parse(image) {
                    Some(h) => {
                        let sd = SymbolsData::from_image(&h);
                        self.syms = Some(sd);
                        SymbolStatus::Loaded
                    },
                    None => SymbolStatus::Unload,
                }
            },
        }
    }
}

/// The index of the last `/` of `p`, if any.
pub open spec fn last_slash(p: Seq<char>) -> Option<int>
    decreases p.len(),
{
    if p.len() == 0 {
        None
    } else if p.last() == '/' {
        Some(p.len() - 1)
    } else {
        last_slash(p.drop_last())
    }
}

/// The text after the last `/` of `p` (all of `p` without one).
pub open spec fn basename_of(p: Seq<char>) -> Seq<char> {
    match last_slash(p) {
        Some(j) => p.skip(j + 1),
        None => p,
    }
}

proof fn lemma_last_slash(p: Seq<char>, j: int)
    requires
        0 <= j <= p.len(),
        forall|k: int| j <= k < p.len() ==> p[k] != '/',
    ensures
        j > 0 && p[j - 1] == '/' ==> last_slash(p) == Some(j - 1),
        j == 0 ==> last_slash(p) is None,
    decreases p.len(),
{
    if p.len() > j {
        assert(forall|k: int| j <= k < p.len() - 1 ==> #[trigger] p.drop_last()[k] != '/');
        lemma_last_slash(p.drop_last(), j);
    }
}

/// The basename of a path: what follows its last `/`.
pub fn basename(p: &str) -> (r: String)
    ensures
        r@ == basename_of(p@),
{
    let n = p.unicode_len();
    let mut i: usize = n;
    while i > 0
        invariant
            0 <= i <= n,
            n == p@.len(),
            forall|k: int| i <= k < n ==> p@[k] != '/',
        decreases i,
    {
        let c = p.get_char(i - 1);
        if c == '/' {
            proof {
                lemma_last_slash(p@, i as int);
                assert(p@.skip(i as int) =~= p@.subrange(i as int, n as int));
            }
            let s = p.substring_char(i, n);
            return s.to_owned();
        }
        i = i - 1;
    }
    proof {
        lemma_last_slash(p@, 0);
    }
    p.to_owned()
}

/// The module one region opens.
pub open spec fn module_from(r: MemoryRegionV) -> ModuleDataV {
    ModuleDataV {
        base: r.base,
        size: r.size,
        name: basename_of(r.path),
        path: r.path,
        usage: r.usage,
    }
}

/// Sizes accumulate saturating at the top of the address space.
pub open spec fn add_size(a: u64, b: u64) -> u64 {
    if a + b > u64::MAX {
        u64::MAX
    } else {
        (a + b) as u64
    }
}

/// A module grown by one more region of its backing image.
pub open spec fn grow(m: ModuleDataV, s: u64) -> ModuleDataV {
    ModuleDataV { base: m.base, size: add_size(m.size, s), name: m.name, path: m.path, usage: m.usage }
}

/// Coalescing: regions are walked in map order; a region whose backing
/// path equals the immediately preceding region's path joins that
/// module, accumulating its span, while an anonymous region is skipped
/// and breaks any run; any other backed region opens a new module whose
/// base and permission string are its own.
pub open spec fn coalesce(regions: Seq<MemoryRegionV>) -> Seq<ModuleDataV>
    decreases regions.len(),
{
    if regions.len() == 0 {
        Seq::empty()
    } else {
        let rest = coalesce(regions.drop_last());
        let r = regions.last();
        if r.path.len() == 0 {
            rest
        } else if regions.len() >= 2 && regions[regions.len() - 2].path == r.path {
            rest.update(rest.len() - 1, grow(rest.last(), r.size))
        } else {
            rest.push(module_from(r))
        }
    }
}

proof fn lemma_coalesce_last(regions: Seq<MemoryRegionV>)
    requires
        regions.len() > 0,
        regions.last().path.len() > 0,
    ensures
        coalesce(regions).len() >= 1,
        coalesce(regions).last().path == regions.last().path,
    decreases regions.len(),
{
    if regions.len() >= 2 && regions[regions.len() - 2].path == regions.last().path {
        lemma_coalesce_last(regions.drop_last());
    }
}

/// Fresh modules for a list of coalesced module data: no cache yet.
pub open spec fn fresh_modules(datas: Seq<ModuleDataV>) -> Seq<ModuleV> {
    datas.map_values(|d: ModuleDataV| ModuleV { data: d, loaded: false, syms: None })
}

/// Coalesce parsed regions into fresh modules.
#[verifier::rlimit(50)]
pub fn coalesce_modules(regions: &Vec<MemoryRegion>) -> (r: Vec<Module>)
    ensures
        r.deep_view() == fresh_modules(coalesce(regions.deep_view())),
{
    let mut out: Vec<Module> = Vec::new();
    let n = regions.len();
    let mut i: usize = 0;
    while i < n
        invariant
            0 <= i <= n,
            n == regions@.len(),
            out.deep_view() =~~= fresh_modules(coalesce(regions.deep_view().subrange(0, i as int))),
        decreases n - i,
    {
        proof {
            assert(regions.deep_view().subrange(0, i + 1).drop_last() =~~= regions.deep_view(
            ).subrange(0, i as int));
            assert(regions.deep_view().subrange(0, i + 1).last() == regions.deep_view()[i as int]);
        }
        let r = &regions[i];
        if r.path.as_str().is_empty() {
            proof {
                assert(out.deep_view() =~~= fresh_modules(
                    coalesce(regions.deep_view().subrange(0, i + 1)),
                ));
            }
        } else {
            let merge = if i > 0 {
                str_eq(regions[i - 1].path.as_str(), r.path.as_str())
            } else {
                false
            };
            if merge {
                let ghost out0 = out.deep_view();
                proof {
                    let sub = regions.deep_view().subrange(0, i as int);
                    assert(sub.last() == regions.deep_view()[i - 1]);
                    assert(regions.deep_view()[i - 1].path == regions@[i - 1].path@);
                    assert(regions@[i - 1].path@ == regions@[i as int].path@);
                    assert(regions@[i as int].path@.len() > 0);
                    lemma_coalesce_last(sub);
                    assert(coalesce(sub).len() >= 1);
                    assert(out@.len() == fresh_modules(coalesce(sub)).len());
                    assert(out@.len() >= 1);
                }
                match out.pop() {
                    Some(m) => {
                        let grown: u64 = if m.data.size > u64::MAX - r.size {
                            u64::MAX
                        } else {
                            m.data.size + r.size
                        };
                        let m2 = Module {
                            data: ModuleData {
                                base: m.data.base,
                                size: grown,
                                name: m.data.name,
                                path: m.data.path,
                                usage: m.data.usage,
                            },
                            loaded: m.loaded,
                            syms: m.syms,
                        };
                        out.push(m2);
                        proof {
                            let sub = regions.deep_view().subrange(0, i as int);
                            let sub1 = regions.deep_view().subrange(0, i + 1);
                            let rest = coalesce(sub);
                            assert(sub1.len() >= 2);
                            assert(sub1[sub1.len() - 2] == sub.last());
                            assert(sub1.last() == regions.deep_view()[i as int]);
                            assert(sub1[sub1.len() - 2].path == sub1.last().path);
                            assert(sub1.last().path.len() > 0);
                            assert(coalesce(sub1) == rest.update(
                                rest.len() - 1,
                                grow(rest.last(), sub1.last().size),
                            ));
                            assert(m@ == fresh_modules(rest).last());
                            assert(m2@.data =~= grow(m@.data, regions.deep_view()[i as int].size));
                            assert(out@.len() == out0.len());
                            assert forall|k: int|
                                0 <= k < out@.len() implies out.deep_view()[k] =~~= fresh_modules(
                                coalesce(sub1),
                            )[k] by {
                                assert(fresh_modules(coalesce(sub1))[k] == ModuleV {
                                    data: coalesce(sub1)[k],
                                    loaded: false,
                                    syms: None,
                                });
                                assert(fresh_modules(rest)[k] == ModuleV {
                                    data: rest[k],
                                    loaded: false,
                                    syms: None,
                                });
                                if k < out0.len() - 1 {
                                    assert(out.deep_view()[k] == out0[k]);
                                    assert(out0[k] == fresh_modules(rest)[k]);
                                    assert(coalesce(sub1)[k] == rest[k]);
                                } else {
                                    assert(out.deep_view()[k] == m2@);
                                    assert(coalesce(sub1)[k] == grow(
                                        rest.last(),
                                        sub1.last().size,
                                    ));
                                    assert(m@.data == rest.last());
                                }
                            }
                            assert(out.deep_view() =~~= fresh_modules(coalesce(sub1)));
                        }
                    },
                    None => {
                        proof {
                            assert(false);
                        }
                    },
                }
            } else {
                let ghost out0 = out.deep_view();
                let name = basename(r.path.as_str());
                let m_new = Module::new(
                    ModuleData {
                        base: r.base,
                        size: r.size,
                        name,
                        path: r.path.clone(),
                        usage: r.usage.clone(),
                    },
                );
                out.push(m_new);
                proof {
                    let sub = regions.deep_view().subrange(0, i as int);
                    let sub1 = regions.deep_view().subrange(0, i + 1);
                    let rest = coalesce(sub);
                    assert(sub1.last() == regions.deep_view()[i as int]);
                    assert(sub1.last().path == regions@[i as int].path@);
                    assert(sub1.last().path.len() > 0);
                    if i > 0 {
                        assert(sub1[sub1.len() - 2] == regions.deep_view()[i - 1]);
                        assert(sub1[sub1.len() - 2].path == regions@[i - 1].path@);
                        assert(sub1[sub1.len() - 2].path != sub1.last().path);
                    }
                    assert(coalesce(sub1) == rest.push(module_from(sub1.last())));
                    assert(m_new@.data =~= module_from(sub1.last()));
                    assert(out@.len() == out0.len() + 1);
                    assert forall|k: int|
                        0 <= k < out@.len() implies out.deep_view()[k] =~~= fresh_modules(
                        coalesce(sub1),
                    )[k] by {
                        assert(fresh_modules(coalesce(sub1))[k] == ModuleV {
                            data: coalesce(sub1)[k],
                            loaded: false,
                            syms: None,
                        });
                        if k < out0.len() {
                            assert(out.deep_view()[k] == out0[k]);
                            assert(out0[k] == fresh_modules(rest)[k]);
                            assert(fresh_modules(rest)[k] == ModuleV {
                                data: rest[k],
                                loaded: false,
                                syms: None,
                            });
                            assert(coalesce(sub1)[k] == rest[k]);
                        } else {
                            assert(out.deep_view()[k] == m_new@);
                            assert(coalesce(sub1)[k] == module_from(sub1.last()));
                        }
                    }
                    assert(out.deep_view() =~~= fresh_modules(coalesce(sub1)));
                }
            }
        }
        proof {
            assert(out.deep_view() =~~= fresh_modules(
                coalesce(regions.deep_view().subrange(0, i + 1)),
            ));
        }
        i = i + 1;
    }
    proof {
        assert(regions.deep_view().subrange(0, n as int) =~~= regions.deep_view());
    }
    out
}

/// The first module named `name`, by index; first match wins.
pub fn find_module_by_name(modules: &Vec<Module>, name: &str) -> (r: Option<usize>)
    ensures
        match r {
            Some(i) => i < modules@.len() && modules@[i as int]@.data.name == name@ && forall|
                j: int,
            | 0 <= j < i ==> modules@[j]@.data.name != name@,
            None => forall|j: int| 0 <= j < modules@.len() ==> modules@[j]@.data.name != name@,
        },
{
    let n = modules.len();
    let mut i: usize = 0;
    while i < n
        invariant
            0 <= i <= n,
            n == modules@.len(),
            forall|j: int| 0 <= j < i ==> modules@[j]@.data.name != name@,
        decreases n - i,
    {
        if str_eq(modules[i].data.name.as_str(), name) {
            return Some(i);
        }
        i = i + 1;
    }
    None
}

impl Process {
    /// Derive the modules of this process from the map-description
    /// bytes the caller read, or report the read failure.
    pub fn enum_module(&self, maps: Option<&Vec<u8>>) -> (r: Result<Vec<Module>, String>)
        ensures
            match r {
                Ok(v) => maps matches Some(d) && v.deep_view() == fresh_modules(
                    coalesce(regions_of(d@)),
                ),
                Err(_) => maps is None,
            },
    {
        match maps {
            Some(d) => {
                let regions = parse_memory_maps(d.as_slice());
                Ok(coalesce_modules(&regions))
            },
            None => Err("cannot read the process map description".to_owned()),
        }
    }
}

} // verus!
