//! Memory-map parsing: one `MemoryRegion` per line of the per-process
//! map description.  A malformed line is skipped; only the map read
//! itself failing is reported, since without the map no module or
//! region enumeration is possible.

use vstd::prelude::*;

use crate::process::{find_byte, first_byte, split_byte, split_on_byte, Process};
use crate::strutil::{all_hex_digits, bytes_to_string, hex_val, lossy_of};

verus! {

/// One mapped region: start address, span in bytes, permission string,
/// and backing path (empty for anonymous regions).
pub struct MemoryRegion {
    pub base: u64,
    pub size: u64,
    pub usage: String,
    pub path: String,
}

#[verifier::ext_equal]
pub struct MemoryRegionV {
    pub base: u64,
    pub size: u64,
    pub usage: Seq<char>,
    pub path: Seq<char>,
}

impl View for MemoryRegion {
    type V = MemoryRegionV;

    open spec fn view(&self) -> MemoryRegionV {
        MemoryRegionV { base: self.base, size: self.size, usage: self.usage@, path: self.path@ }
    }
}

impl DeepView for MemoryRegion {
    type V = MemoryRegionV;

    open spec fn deep_view(&self) -> MemoryRegionV {
        self.view()
    }
}

/// The field before the first space of `p` (all of `p` without one).
pub open spec fn spec_token(p: Seq<u8>) -> Seq<u8> {
    match first_byte(p, 32) {
        Some(j) => p.subrange(0, j),
        None => p,
    }
}

/// What follows the first space of `p` (nothing without one).
pub open spec fn spec_after_token(p: Seq<u8>) -> Seq<u8> {
    match first_byte(p, 32) {
        Some(j) => p.skip(j + 1),
        None => Seq::empty(),
    }
}

/// Split `p` into its first space-separated field and the rest.
fn token_split<'a>(p: &'a [u8]) -> (r: (&'a [u8], &'a [u8]))
    ensures
        r.0@ == spec_token(p@),
        r.1@ == spec_after_token(p@),
{
    let plen = p.len();
    match find_byte(p, 32) {
        Some(j) => {
            let tok = &p[0..j];
            let rest = &p[j + 1..plen];
            proof {
                assert(tok@ =~= p@.subrange(0, j as int));
                assert(rest@ =~= p@.skip(j + 1));
            }
            (tok, rest)
        },
        None => {
            let rest = &p[plen..plen];
            proof {
                assert(p@.subrange(0, plen as int) =~= p@);
                assert(rest@ =~= Seq::<u8>::empty());
            }
            (p, rest)
        },
    }
}

/// The index of the first byte of `p` that is not `x`, if any.
pub open spec fn first_not_byte(p: Seq<u8>, x: u8) -> Option<int>
    decreases p.len(),
{
    if p.len() == 0 {
        None
    } else if p[0] != x {
        Some(0)
    } else {
        match first_not_byte(p.drop_first(), x) {
            Some(i) => Some(i + 1),
            None => None,
        }
    }
}

proof fn lemma_first_not_byte_prefix(p: Seq<u8>, x: u8, j: int)
    requires
        0 <= j <= p.len(),
        forall|i: int| 0 <= i < j ==> p[i] == x,
    ensures
        j < p.len() && p[j] != x ==> first_not_byte(p, x) == Some(j),
        j == p.len() ==> first_not_byte(p, x) is None,
    decreases p.len(),
{
    if j > 0 {
        assert(forall|i: int| 0 <= i < j - 1 ==> #[trigger] p.drop_first()[i] == x);
        lemma_first_not_byte_prefix(p.drop_first(), x, j - 1);
    }
}

/// Find the first byte of `p` that is not `x`.
fn find_not_byte(p: &[u8], x: u8) -> (r: Option<usize>)
    ensures
        match r {
            Some(j) => first_not_byte(p@, x) == Some(j as int) && j < p@.len() && p@[j as int]
                != x,
            None => first_not_byte(p@, x) is None,
        },
{
    let n = p.len();
    let mut j: usize = 0;
    while j < n
        invariant
            0 <= j <= n,
            n == p@.len(),
            forall|i: int| 0 <= i < j ==> p@[i] == x,
        decreases n - j,
    {
        if p[j] != x {
            proof {
                lemma_first_not_byte_prefix(p@, x, j as int);
            }
            return Some(j);
        }
        j = j + 1;
    }
    proof {
        lemma_first_not_byte_prefix(p@, x, n as int);
    }
    None
}

/// Is `a` a well-formed lower-case hexadecimal address field?
pub open spec fn valid_hex(a: Seq<u8>) -> bool {
    0 < a.len() <= 15 && all_hex_digits(a)
}

/// The backing path of a line's tail: what follows the run of padding
/// spaces, or nothing when only spaces (or nothing) remain.
pub open spec fn spec_path_tail(p: Seq<u8>) -> Seq<u8> {
    match first_not_byte(p, 32) {
        Some(k) => p.skip(k),
        None => Seq::empty(),
    }
}

/// The region a single map line describes, if it is well formed: the
/// address-range field `start-end` in hexadecimal, then the permission
/// field, then three fields (offset, device, inode) that are skipped,
/// then the optional backing path.
pub open spec fn region_of_line(line: Seq<u8>) -> Option<MemoryRegionV> {
    let t0 = spec_token(line);
    let rest0 = spec_after_token(line);
    match first_byte(t0, 45) {
        Some(j) => {
            let a1 = t0.subrange(0, j);
            let a2 = t0.skip(j + 1);
            if valid_hex(a1) && valid_hex(a2) && hex_val(a1) <= hex_val(a2) {
                let perms = spec_token(rest0);
                let rest1 = spec_after_token(rest0);
                let rest2 = spec_after_token(rest1);
                let rest3 = spec_after_token(rest2);
                let rest4 = spec_after_token(rest3);
                Some(
                    MemoryRegionV {
                        base: hex_val(a1) as u64,
                        size: (hex_val(a2) - hex_val(a1)) as u64,
                        usage: lossy_of(perms),
                        path: lossy_of(spec_path_tail(rest4)),
                    },
                )
            } else {
                None
            }
        },
        None => None,
    }
}

/// Parse one line of the map description.
pub fn parse_map_line(line: &[u8]) -> (r: Option<MemoryRegion>)
    ensures
        r.deep_view() == region_of_line(line@),
{
    let (t0, rest0) = token_split(line);
    let t0len = t0.len();
    match find_byte(t0, 45) {
        Some(j) => {
            let a1 = &t0[0..j];
            let a2 = &t0[j + 1..t0len];
            proof {
                assert(a1@ =~= spec_token(line@).subrange(0, j as int));
                assert(a2@ =~= spec_token(line@).skip(j + 1));
            }
            let start = crate::strutil::parse_hex(a1);
            let end = crate::strutil::parse_hex(a2);
            match (start, end) {
                (Some(s), Some(e)) => {
                    if s <= e {
                        let (perms, rest1) = token_split(rest0);
                        let (_o, rest2) = token_split(rest1);
                        let (_d, rest3) = token_split(rest2);
                        let (_i, rest4) = token_split(rest3);
                        let rest4len = rest4.len();
                        let path = match find_not_byte(rest4, 32) {
                            Some(k) => bytes_to_string(&rest4[k..rest4len]),
                            None => bytes_to_string(&rest4[rest4len..rest4len]),
                        };
                        proof {
                            assert(rest4@.skip(rest4@.len() as int) =~= Seq::<u8>::empty());
                        }
                        let usage = bytes_to_string(perms);
                        Some(MemoryRegion { base: s, size: e - s, usage, path })
                    } else {
                        None
                    }
                },
                _ => None,
            }
        },
        None => None,
    }
}

/// The regions of a map description, in line order; malformed lines are
/// skipped.
pub open spec fn region_list(lines: Seq<Seq<u8>>) -> Seq<MemoryRegionV>
    decreases lines.len(),
{
    if lines.len() == 0 {
        Seq::empty()
    } else {
        let rest = region_list(lines.drop_last());
        match region_of_line(lines.last()) {
            Some(rg) => rest.push(rg),
            None => rest,
        }
    }
}

/// The regions a whole map description parses to.
pub open spec fn regions_of(b: Seq<u8>) -> Seq<MemoryRegionV> {
    region_list(split_byte(b, 10))
}

/// Parse a whole map description, one region per well-formed line.
pub fn parse_memory_maps(data: &[u8]) -> (r: Vec<MemoryRegion>)
    ensures
        r.deep_view() == regions_of(data@),
{
    let lines = split_on_byte(data, 10);
    let mut out: Vec<MemoryRegion> = Vec::new();
    let n = lines.len();
    let mut i: usize = 0;
    while i < n
        invariant
            0 <= i <= n,
            n == lines@.len(),
            lines.deep_view() == split_byte(data@, 10),
            out.deep_view() =~~= region_list(lines.deep_view().subrange(0, i as int)),
        decreases n - i,
    {
        proof {
            assert(lines.deep_view().subrange(0, i + 1).drop_last() =~~= lines.deep_view(
            ).subrange(0, i as int));
            assert(lines.deep_view().subrange(0, i + 1).last() == lines.deep_view()[i as int]);
            assert(lines.deep_view()[i as int] =~= lines@[i as int]@);
        }
        match parse_map_line(lines[i].as_slice()) {
            Some(rg) => out.push(rg),
            None => (),
        }
        i = i + 1;
    }
    proof {
        assert(lines.deep_view().subrange(0, n as int) =~~= lines.deep_view());
    }
    out
}

impl Process {
    /// Enumerate the mapped regions from the map-description bytes the
    /// caller read, or report the read failure — the one operation here
    /// whose failure is reported rather than swallowed.
    pub fn enum_memory(&self, maps: Option<&Vec<u8>>) -> (r: Result<Vec<MemoryRegion>, String>)
        ensures
            match r {
                Ok(v) => maps matches Some(d) && v.deep_view() == regions_of(d@),
                Err(_) => maps is None,
            },
    {
        match maps {
            Some(d) => Ok(parse_memory_maps(d.as_slice())),
            None => Err("cannot read the process map description".to_owned()),
        }
    }
}

} // verus!
