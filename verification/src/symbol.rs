//! Symbols as higher layers see them, the undecoration of mangled
//! names, and the flag bits that steer it.

use vstd::prelude::*;

verus! {

pub const UNDEC_TYPE: u32 = 1;

pub const UNDEC_RETN: u32 = 2;

pub const UNDEC_NAME_ONLY: u32 = 4;

pub const DISASM_RAW: u32 = 256;

pub const DISASM_SYMBOL: u32 = 512;

pub const SHOW_OUTPUT: u32 = 65536;

/// Flag bits controlling undecoration and presentation.
#[derive(Clone, Copy, PartialEq, Eq, Structural, Debug)]
pub struct UDbgFlags(pub u32);

impl UDbgFlags {
    /// Are all bits of `f` set?
    pub open spec fn spec_contains(self, f: u32) -> bool {
        self.0 & f == f
    }

    pub fn contains(&self, f: u32) -> (r: bool)
        ensures
            r == self.spec_contains(f),
    {
        self.0 & f == f
    }
}

impl Default for UDbgFlags {
    /// The default flags: show output, undecorate to the bare name.
    fn default() -> (r: UDbgFlags)
        ensures
            r.0 == SHOW_OUTPUT | UNDEC_NAME_ONLY,
    {
        UDbgFlags(SHOW_OUTPUT | UNDEC_NAME_ONLY)
    }
}

/// One resolved symbol of a module.
pub struct Symbol {
    pub offset: u64,
    pub len: u64,
    pub flags: u32,
    pub name: String,
}

/// What demangling a name yields under the chosen options: a function
/// of the name and the options alone (nothing for a name that is not a
/// mangled symbol).
pub uninterp spec fn demangled_of(sym: Seq<char>, no_params: bool, no_ret: bool) -> Option<
    Seq<char>,
>;

/// Relies on cpp_demangle's `Symbol::new` and `demangle_with_options`:
/// whether a name parses as a mangled symbol, and its demangling under
/// the chosen options, depend on the name and the options alone.
#[verifier::external_body]
fn demangle_raw(sym: &str, no_params: bool, no_ret: bool) -> (r: Option<String>)
    ensures
        r is Some <==> demangled_of(sym@, no_params, no_ret) is Some,
        r matches Some(s) ==> Some(s@) == demangled_of(sym@, no_params, no_ret),
{
    let parsed = cpp_demangle::Symbol::new(sym.as_bytes()).ok()?;
    let mut opts = cpp_demangle::DemangleOptions::new();
    if no_params {
        opts = opts.no_params();
    }
    if no_ret {
        opts = opts.no_return_type();
    }
    parsed.demangle_with_options(&opts).ok()
}

impl Symbol {
    /// Undecorate a mangled name; the flags decide whether parameter
    /// types and the return type are omitted.  Nothing for a name that
    /// does not demangle — an expected outcome, not an error.
    pub fn undecorate(sym: &str, flags: UDbgFlags) -> (r: Option<String>)
        ensures
            r.deep_view() == demangled_of(
                sym@,
                flags.spec_contains(UNDEC_TYPE),
                flags.spec_contains(UNDEC_RETN),
            ),
    {
        let no_params = flags.contains(UNDEC_TYPE);
        let no_ret = flags.contains(UNDEC_RETN);
        demangle_raw(sym, no_params, no_ret)
    }
}

} // verus!
