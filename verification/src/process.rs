//! Live-process metadata: parsers for the per-process text resources
//! (command line, environment, comm name, task and descriptor listings)
//! and the process handle with its lazily-opened memory-access state.
//!
//! Every function here is pure over the resource bytes it is handed;
//! reading those bytes from the OS is the caller's business, and a
//! malformed or unreadable resource degrades to an empty result rather
//! than an error.

use vstd::prelude::*;

use crate::pid_t;
use crate::strutil::{all_dec_digits, bytes_to_string, dec_val, lossy_of, parse_dec, str_eq};

verus! {

/// The index of the first occurrence of `x` in `p`, if any.
pub open spec fn first_byte(p: Seq<u8>, x: u8) -> Option<int>
    decreases p.len(),
{
    if p.len() == 0 {
        None
    } else if p[0] == x {
        Some(0)
    } else {
        match first_byte(p.drop_first(), x) {
            Some(i) => Some(i + 1),
            None => None,
        }
    }
}

proof fn lemma_first_byte_prefix(p: Seq<u8>, x: u8, j: int)
    requires
        0 <= j <= p.len(),
        forall|i: int| 0 <= i < j ==> p[i] != x,
    ensures
        j < p.len() && p[j] == x ==> first_byte(p, x) == Some(j),
        j == p.len() ==> first_byte(p, x) is None,
    decreases p.len(),
{
    if j > 0 {
        assert(forall|i: int| 0 <= i < j - 1 ==> #[trigger] p.drop_first()[i] != x);
        lemma_first_byte_prefix(p.drop_first(), x, j - 1);
    }
}

/// Find the first occurrence of `x` in `p`.
pub fn find_byte(p: &[u8], x: u8) -> (r: Option<usize>)
    ensures
        match r {
            Some(j) => first_byte(p@, x) == Some(j as int) && j < p@.len() && p@[j as int] == x,
            None => first_byte(p@, x) is None,
        },
{
    let n = p.len();
    let mut j: usize = 0;
    while j < n
        invariant
            0 <= j <= n,
            n == p@.len(),
            forall|i: int| 0 <= i < j ==> p@[i] != x,
        decreases n - j,
    {
        if p[j] == x {
            proof {
                lemma_first_byte_prefix(p@, x, j as int);
            }
            return Some(j);
        }
        j = j + 1;
    }
    proof {
        lemma_first_byte_prefix(p@, x, n as int);
    }
    None
}

/// `b` split at every occurrence of `x`: the pieces between separators,
/// in order, with an empty piece for every empty gap (so an empty input
/// is one empty piece, and a trailing separator yields a trailing empty
/// piece).
pub open spec fn split_byte(b: Seq<u8>, x: u8) -> Seq<Seq<u8>>
    decreases b.len(),
{
    if b.len() == 0 {
        seq![Seq::<u8>::empty()]
    } else if b.last() == x {
        split_byte(b.drop_last(), x).push(Seq::<u8>::empty())
    } else {
        let rest = split_byte(b.drop_last(), x);
        rest.update(rest.len() - 1, rest.last().push(b.last()))
    }
}

proof fn lemma_split_byte_nonempty(b: Seq<u8>, x: u8)
    ensures
        split_byte(b, x).len() >= 1,
    decreases b.len(),
{
    if b.len() > 0 {
        lemma_split_byte_nonempty(b.drop_last(), x);
    }
}

/// Split `b` at every occurrence of `x`.
pub fn split_on_byte(b: &[u8], x: u8) -> (r: Vec<Vec<u8>>)
    ensures
        r.deep_view() == split_byte(b@, x),
{
    let mut pieces: Vec<Vec<u8>> = Vec::new();
    let mut cur: Vec<u8> = Vec::new();
    let n = b.len();
    let mut i: usize = 0;
    while i < n
        invariant
            0 <= i <= n,
            n == b@.len(),
            pieces.deep_view().push(cur@) =~~= split_byte(b@.subrange(0, i as int), x),
        decreases n - i,
    {
        proof {
            assert(b@.subrange(0, i + 1).drop_last() =~= b@.subrange(0, i as int));
            assert(b@.subrange(0, i + 1).last() == b@[i as int]);
            lemma_split_byte_nonempty(b@.subrange(0, i as int), x);
        }
        let c = b[i];
        if c == x {
            pieces.push(cur);
            cur = Vec::new();
            proof {
                assert(pieces.deep_view().push(cur@) =~~= split_byte(b@.subrange(0, i + 1), x));
            }
        } else {
            cur.push(c);
            proof {
                assert(pieces.deep_view().push(cur@) =~~= split_byte(b@.subrange(0, i + 1), x));
            }
        }
        i = i + 1;
    }
    pieces.push(cur);
    proof {
        assert(b@.subrange(0, n as int) =~= b@);
        assert(pieces.deep_view() =~~= split_byte(b@, x));
    }
    pieces
}

/// Lossy decoding of each piece.
pub open spec fn pieces_decoded(pieces: Seq<Seq<u8>>) -> Seq<Seq<char>> {
    pieces.map_values(|p: Seq<u8>| lossy_of(p))
}

fn pieces_to_strings(pieces: Vec<Vec<u8>>) -> (r: Vec<String>)
    ensures
        r.deep_view() == pieces_decoded(pieces.deep_view()),
{
    let mut out: Vec<String> = Vec::new();
    let n = pieces.len();
    let mut i: usize = 0;
    while i < n
        invariant
            0 <= i <= n,
            n == pieces@.len(),
            out@.len() == i,
            forall|k: int|
                0 <= k < i ==> out.deep_view()[k] == lossy_of(#[trigger] pieces.deep_view()[k]),
        decreases n - i,
    {
        proof {
            assert(pieces.deep_view()[i as int] =~= pieces@[i as int]@);
        }
        let s = bytes_to_string(pieces[i].as_slice());
        out.push(s);
        i = i + 1;
    }
    proof {
        assert(out.deep_view() =~~= pieces_decoded(pieces.deep_view()));
    }
    out
}

/// Strings with every trailing empty element removed.
pub open spec fn trim_trailing_empty(p: Seq<Seq<char>>) -> Seq<Seq<char>>
    decreases p.len(),
{
    if p.len() > 0 && p.last().len() == 0 {
        trim_trailing_empty(p.drop_last())
    } else {
        p
    }
}

proof fn lemma_trim_is_prefix(p: Seq<Seq<char>>, k: int)
    requires
        0 <= k <= p.len(),
        forall|j: int| k <= j < p.len() ==> p[j].len() == 0,
        k > 0 ==> p[k - 1].len() > 0,
    ensures
        trim_trailing_empty(p) == p.subrange(0, k),
    decreases p.len(),
{
    if p.len() > k {
        assert(forall|j: int| k <= j < p.len() - 1 ==> #[trigger] p.drop_last()[j].len() == 0);
        lemma_trim_is_prefix(p.drop_last(), k);
        assert(p.drop_last().subrange(0, k) =~= p.subrange(0, k));
    } else {
        assert(p.subrange(0, k) =~= p);
    }
}

fn string_is_empty(s: &String) -> (r: bool)
    ensures
        r == (s@.len() == 0),
{
    s.as_str().is_empty()
}

/// The parsed command line of the raw `cmdline` bytes: the NUL-separated
/// fields with trailing empty fields trimmed; embedded empty fields are
/// kept.
pub open spec fn cmdline_of(b: Seq<u8>) -> Seq<Seq<char>> {
    trim_trailing_empty(pieces_decoded(split_byte(b, 0)))
}

/// Parse raw command-line bytes.  An empty input (the degraded result of
/// an unreadable resource) parses to an empty list.
pub fn process_cmdline(data: &[u8]) -> (r: Vec<String>)
    ensures
        r.deep_view() == cmdline_of(data@),
{
    let pieces = split_on_byte(data, 0);
    let mut v = pieces_to_strings(pieces);
    let ghost full = v.deep_view();
    let mut k = v.len();
    while k > 0 && string_is_empty(&v[k - 1])
        invariant
            0 <= k <= v@.len(),
            v.deep_view() == full,
            forall|j: int| k <= j < full.len() ==> full[j].len() == 0,
        decreases k,
    {
        k = k - 1;
    }
    v.truncate(k);
    proof {
        lemma_trim_is_prefix(full, k as int);
        assert(v.deep_view() =~~= full.subrange(0, k as int));
    }
    v
}

/// One parsed environment entry.
pub struct EnvEntry {
    pub name: String,
    pub value: String,
}

#[verifier::ext_equal]
pub struct EnvEntryV {
    pub name: Seq<char>,
    pub value: Seq<char>,
}

impl View for EnvEntry {
    type V = EnvEntryV;

    open spec fn view(&self) -> EnvEntryV {
        EnvEntryV { name: self.name@, value: self.value@ }
    }
}

impl DeepView for EnvEntry {
    type V = EnvEntryV;

    open spec fn deep_view(&self) -> EnvEntryV {
        self.view()
    }
}

/// The entry a NUL-separated environment piece parses to: pieces with no
/// `=` are skipped; the name is everything before the first `=`, the
/// value the span between the first and the second `=` (or the end).
pub open spec fn env_pair_of(p: Seq<u8>) -> Option<EnvEntryV> {
    match first_byte(p, 61) {
        Some(j) => {
            let rest = p.skip(j + 1);
            let value = match first_byte(rest, 61) {
                Some(k) => rest.subrange(0, k),
                None => rest,
            };
            Some(EnvEntryV { name: lossy_of(p.subrange(0, j)), value: lossy_of(value) })
        },
        None => None,
    }
}

/// The environment entries of the split pieces, in resource order.
pub open spec fn env_list(pieces: Seq<Seq<u8>>) -> Seq<EnvEntryV>
    decreases pieces.len(),
{
    if pieces.len() == 0 {
        Seq::empty()
    } else {
        let rest = env_list(pieces.drop_last());
        match env_pair_of(pieces.last()) {
            Some(e) => rest.push(e),
            None => rest,
        }
    }
}

/// The parsed environment of the raw `environ` bytes.
pub open spec fn environ_of(b: Seq<u8>) -> Seq<EnvEntryV> {
    env_list(split_byte(b, 0))
}

fn parse_env_piece(p: &[u8]) -> (r: Option<EnvEntry>)
    ensures
        r.deep_view() == env_pair_of(p@),
{
    let plen = p.len();
    match find_byte(p, 61) {
        Some(j) => {
            let name = bytes_to_string(&p[0..j]);
            let rest = &p[j + 1..plen];
            proof {
                assert(rest@ =~= p@.skip(j + 1));
            }
            let value = match find_byte(rest, 61) {
                Some(k) => bytes_to_string(&rest[0..k]),
                None => bytes_to_string(rest),
            };
            proof {
                assert(p@.skip(j + 1).subrange(0, p@.skip(j + 1).len() as int) =~= p@.skip(j + 1));
            }
            Some(EnvEntry { name, value })
        },
        None => None,
    }
}

/// Parse raw environment bytes into (name, value) entries, in resource
/// order.  An empty input parses to an empty list.
pub fn process_environ(data: &[u8]) -> (r: Vec<EnvEntry>)
    ensures
        r.deep_view() == environ_of(data@),
{
    let pieces = split_on_byte(data, 0);
    let mut out: Vec<EnvEntry> = Vec::new();
    let n = pieces.len();
    let mut i: usize = 0;
    while i < n
        invariant
            0 <= i <= n,
            n == pieces@.len(),
            pieces.deep_view() == split_byte(data@, 0),
            out.deep_view() =~~= env_list(pieces.deep_view().subrange(0, i as int)),
        decreases n - i,
    {
        proof {
            assert(pieces.deep_view().subrange(0, i + 1).drop_last() =~~= pieces.deep_view(
            ).subrange(0, i as int));
            assert(pieces.deep_view().subrange(0, i + 1).last() == pieces.deep_view()[i as int]);
            assert(pieces.deep_view()[i as int] =~= pieces@[i as int]@);
        }
        match parse_env_piece(pieces[i].as_slice()) {
            Some(e) => out.push(e),
            None => (),
        }
        i = i + 1;
    }
    proof {
        assert(pieces.deep_view().subrange(0, n as int) =~~= pieces.deep_view());
    }
    out
}

/// The comm name the raw `comm` bytes parse to: the first line, or
/// nothing when the resource was empty or unreadable.
pub open spec fn comm_name_of(b: Seq<u8>) -> Option<Seq<char>> {
    if b.len() == 0 {
        None
    } else {
        match first_byte(b, 10) {
            Some(j) => Some(lossy_of(b.subrange(0, j))),
            None => Some(lossy_of(b)),
        }
    }
}

/// Parse the raw `comm` bytes: the first line of the resource.
pub fn process_name(data: &[u8]) -> (r: Option<String>)
    ensures
        r.deep_view() == comm_name_of(data@),
{
    if data.len() == 0 {
        return None;
    }
    match find_byte(data, 10) {
        Some(j) => Some(bytes_to_string(&data[0..j])),
        None => {
            proof {
                assert(data@.subrange(0, data@.len() as int) =~= data@);
            }
            Some(bytes_to_string(data))
        },
    }
}

/// A directory-entry name (raw bytes) paired with the resolved link
/// target of that descriptor, if resolution succeeded.
pub struct FdEntry {
    pub name: Vec<u8>,
    pub target: Option<String>,
}

#[verifier::ext_equal]
pub struct FdEntryV {
    pub name: Seq<u8>,
    pub target: Option<Seq<char>>,
}

impl View for FdEntry {
    type V = FdEntryV;

    open spec fn view(&self) -> FdEntryV {
        FdEntryV { name: self.name@, target: self.target.deep_view() }
    }
}

impl DeepView for FdEntry {
    type V = FdEntryV;

    open spec fn deep_view(&self) -> FdEntryV {
        self.view()
    }
}

/// One enumerated file descriptor: its number and its resolved target.
pub struct FdInfo {
    pub fd: u32,
    pub path: String,
}

#[verifier::ext_equal]
pub struct FdInfoV {
    pub fd: u32,
    pub path: Seq<char>,
}

impl View for FdInfo {
    type V = FdInfoV;

    open spec fn view(&self) -> FdInfoV {
        FdInfoV { fd: self.fd, path: self.path@ }
    }
}

impl DeepView for FdInfo {
    type V = FdInfoV;

    open spec fn deep_view(&self) -> FdInfoV {
        self.view()
    }
}

/// Is this directory-entry name a (short enough) decimal number?
pub open spec fn is_numeric_name(name: Seq<u8>) -> bool {
    0 < name.len() <= 9 && all_dec_digits(name)
}

/// The descriptors an `fd` directory listing yields: entries whose name
/// is numeric and whose target resolved; others are silently skipped.
pub open spec fn fd_list(entries: Seq<FdEntryV>) -> Seq<FdInfoV>
    decreases entries.len(),
{
    if entries.len() == 0 {
        Seq::empty()
    } else {
        let rest = fd_list(entries.drop_last());
        let e = entries.last();
        if is_numeric_name(e.name) && e.target is Some {
            rest.push(FdInfoV { fd: dec_val(e.name) as u32, path: e.target.unwrap() })
        } else {
            rest
        }
    }
}

/// Pair each numeric descriptor-directory entry with its resolved
/// target; entries that are not numeric or did not resolve are skipped.
pub fn process_fd(entries: Vec<FdEntry>) -> (r: Vec<FdInfo>)
    ensures
        r.deep_view() == fd_list(entries.deep_view()),
{
    let mut out: Vec<FdInfo> = Vec::new();
    let n = entries.len();
    let mut i: usize = 0;
    while i < n
        invariant
            0 <= i <= n,
            n == entries@.len(),
            out.deep_view() =~~= fd_list(entries.deep_view().subrange(0, i as int)),
        decreases n - i,
    {
        proof {
            assert(entries.deep_view().subrange(0, i + 1).drop_last() =~~= entries.deep_view(
            ).subrange(0, i as int));
            assert(entries.deep_view().subrange(0, i + 1).last() == entries.deep_view()[i as int]);
        }
        let e = &entries[i];
        match parse_dec(e.name.as_slice()) {
            Some(fd) => match &e.target {
                Some(t) => out.push(FdInfo { fd, path: t.clone() }),
                None => (),
            },
            None => (),
        }
        i = i + 1;
    }
    proof {
        assert(entries.deep_view().subrange(0, n as int) =~~= entries.deep_view());
    }
    out
}

/// The task ids a task-directory listing yields: every numeric entry
/// name, in listing order; other names are skipped, not errors.
pub open spec fn task_list(names: Seq<Seq<u8>>) -> Seq<pid_t>
    decreases names.len(),
{
    if names.len() == 0 {
        Seq::empty()
    } else {
        let rest = task_list(names.drop_last());
        if is_numeric_name(names.last()) {
            rest.push(dec_val(names.last()) as pid_t)
        } else {
            rest
        }
    }
}

/// Filter a task-directory listing down to its numeric entry names.
pub fn process_tasks(names: &Vec<Vec<u8>>) -> (r: Vec<pid_t>)
    ensures
        r.deep_view() == task_list(names.deep_view()),
{
    let mut out: Vec<pid_t> = Vec::new();
    let n = names.len();
    let mut i: usize = 0;
    while i < n
        invariant
            0 <= i <= n,
            n == names@.len(),
            out.deep_view() =~~= task_list(names.deep_view().subrange(0, i as int)),
        decreases n - i,
    {
        proof {
            assert(names.deep_view().subrange(0, i + 1).drop_last() =~~= names.deep_view().subrange(
                0,
                i as int,
            ));
            assert(names.deep_view().subrange(0, i + 1).last() == names.deep_view()[i as int]);
            assert(names.deep_view()[i as int] =~= names@[i as int]@);
        }
        match parse_dec(names[i].as_slice()) {
            Some(v) => out.push(v as pid_t),
            None => (),
        }
        i = i + 1;
    }
    proof {
        assert(names.deep_view().subrange(0, n as int) =~~= names.deep_view());
    }
    out
}

/// A candidate for process discovery: a pid and the name the discovery
/// scan read for it (`None` where that read failed).
pub struct PidName {
    pub pid: pid_t,
    pub name: Option<String>,
}

#[verifier::ext_equal]
pub struct PidNameV {
    pub pid: pid_t,
    pub name: Option<Seq<char>>,
}

impl View for PidName {
    type V = PidNameV;

    open spec fn view(&self) -> PidNameV {
        PidNameV { pid: self.pid, name: self.name.deep_view() }
    }
}

impl DeepView for PidName {
    type V = PidNameV;

    open spec fn deep_view(&self) -> PidNameV {
        self.view()
    }
}

/// The first candidate whose name matches, if any; candidate order is
/// the discovery order, which the OS leaves unspecified.
pub open spec fn first_pid_match(cands: Seq<PidNameV>, name: Seq<char>) -> Option<pid_t>
    decreases cands.len(),
{
    if cands.len() == 0 {
        None
    } else if cands[0].name == Some(name) {
        Some(cands[0].pid)
    } else {
        first_pid_match(cands.drop_first(), name)
    }
}

/// An opened memory-access handle, as the descriptor number the opener
/// obtained.
#[derive(Clone, Copy, PartialEq, Eq, Structural, Debug)]
pub struct MemFd {
    pub fd: i32,
}

/// One OS process: its identity and the lazily-opened, shared
/// memory-access handle state.  Looking a process up is inherently racy
/// against its exit: a later read on the handle may fail and callers
/// must tolerate that.
pub struct Process {
    pub pid: pid_t,
    mem: Option<MemFd>,
}

impl Process {
    /// The process identity, for contracts.
    pub closed spec fn spec_pid(self) -> pid_t {
        self.pid
    }

    /// The memory-access handle state: `None` until the one-time open.
    pub closed spec fn mem_state(self) -> Option<MemFd> {
        self.mem
    }

    /// A handle for `pid`, provided an identity record for it existed at
    /// the moment the caller checked.
    pub fn from_pid(pid: pid_t, exists: bool) -> (r: Option<Process>)
        ensures
            r is Some <==> exists,
            r matches Some(p) ==> p.spec_pid() == pid && p.mem_state() is None,
    {
        if exists {
            Some(Process { pid, mem: None })
        } else {
            None
        }
    }

    /// The first discovered process whose comm name matches exactly.
    pub fn from_comm(candidates: &Vec<PidName>, name: &str) -> (r: Option<Process>)
        ensures
            match r {
                Some(p) => first_pid_match(candidates.deep_view(), name@) == Some(p.spec_pid())
                    && p.mem_state() is None,
                None => first_pid_match(candidates.deep_view(), name@) is None,
            },
    {
        Self::find_first(candidates, name)
    }

    /// The first discovered process whose first command-line argument
    /// matches exactly.
    pub fn from_name(candidates: &Vec<PidName>, name: &str) -> (r: Option<Process>)
        ensures
            match r {
                Some(p) => first_pid_match(candidates.deep_view(), name@) == Some(p.spec_pid())
                    && p.mem_state() is None,
                None => first_pid_match(candidates.deep_view(), name@) is None,
            },
    {
        Self::find_first(candidates, name)
    }

    fn find_first(candidates: &Vec<PidName>, name: &str) -> (r: Option<Process>)
        ensures
            match r {
                Some(p) => first_pid_match(candidates.deep_view(), name@) == Some(p.spec_pid())
                    && p.mem_state() is None,
                None => first_pid_match(candidates.deep_view(), name@) is None,
            },
    {
        let ghost cands = candidates.deep_view();
        let n = candidates.len();
        let mut i: usize = n;
        let mut found: Option<pid_t> = None;
        proof {
            assert(cands.skip(n as int) =~= Seq::<PidNameV>::empty());
        }
        while i > 0
            invariant
                0 <= i <= n,
                n == cands.len(),
                cands == candidates.deep_view(),
                n == candidates@.len(),
                found == first_pid_match(cands.skip(i as int), name@),
            decreases i,
        {
            i = i - 1;
            proof {
                assert(cands.skip(i as int)[0] == cands[i as int]);
                assert(cands.skip(i as int).drop_first() =~= cands.skip(i + 1));
            }
            let c = &candidates[i];
            let matched = match &c.name {
                Some(s) => str_eq(s.as_str(), name),
                None => false,
            };
            if matched {
                found = Some(c.pid);
            }
        }
        proof {
            assert(cands.skip(0) =~= cands);
        }
        match found {
            Some(pid) => Some(Process { pid, mem: None }),
            None => None,
        }
    }

    /// The process identity.
    pub fn pid(&self) -> (r: pid_t)
        ensures
            r == self.spec_pid(),
    {
        self.pid
    }

    /// The comm name, parsed from the raw `comm` resource bytes.
    pub fn name(&self, comm_data: &[u8]) -> (r: Option<String>)
        ensures
            r.deep_view() == comm_name_of(comm_data@),
    {
        process_name(comm_data)
    }

    /// The command line, parsed from the raw `cmdline` resource bytes.
    pub fn cmdline(&self, cmdline_data: &[u8]) -> (r: Vec<String>)
        ensures
            r.deep_view() == cmdline_of(cmdline_data@),
    {
        process_cmdline(cmdline_data)
    }

    /// The environment, parsed from the raw `environ` resource bytes.
    pub fn environ(&self, environ_data: &[u8]) -> (r: Vec<EnvEntry>)
        ensures
            r.deep_view() == environ_of(environ_data@),
    {
        process_environ(environ_data)
    }

    /// Is the shared memory-access handle open yet?
    pub fn mem_fd(&self) -> (r: Option<i32>)
        ensures
            r == match self.mem_state() {
                Some(m) => Some(m.fd),
                None => None,
            },
    {
        match &self.mem {
            Some(m) => Some(m.fd),
            None => None,
        }
    }

    /// Lazy one-time installation of the memory-access handle: once a
    /// handle is open every later call reuses it unchanged, so exactly
    /// the first opener's handle wins; on a still-closed state the
    /// freshly opened handle (if the open succeeded) is installed.
    pub fn open_mem(&mut self, fresh: Option<MemFd>) -> (r: Option<()>)
        ensures
            old(self).mem_state() is Some ==> *final(self) == *old(self) && r is Some,
            old(self).mem_state() is None ==> final(self).spec_pid() == old(self).spec_pid()
                && final(self).mem_state() == fresh && (r is Some <==> fresh is Some),
    {
        match &self.mem {
            Some(_) => Some(()),
            None => {
                self.mem = fresh;
                match &self.mem {
                    Some(_) => Some(()),
                    None => None,
                }
            },
        }
    }

    /// The positioned-read outcome: the caller's buffer cut to the
    /// prefix the OS actually filled.  Zero bytes transferred is
    /// treated as failure, deliberately conflating a read at the end
    /// of the address space with a hard error; the buffer is then left
    /// untouched.
    pub fn read(&self, buf: &mut Vec<u8>, transferred: usize) -> (r: Option<usize>)
        ensures
            0 < transferred <= old(buf)@.len() ==> r == Some(transferred) && final(buf)@ == old(
                buf,
            )@.subrange(0, transferred as int),
            !(0 < transferred <= old(buf)@.len()) ==> r is None && final(buf)@ == old(buf)@,
    {
        if 0 < transferred && transferred <= buf.len() {
            buf.truncate(transferred);
            Some(transferred)
        } else {
            None
        }
    }

    /// The task ids of this process, from its task-directory listing.
    pub fn enum_thread(&self, task_names: &Vec<Vec<u8>>) -> (r: Vec<pid_t>)
        ensures
            r.deep_view() == task_list(task_names.deep_view()),
    {
        process_tasks(task_names)
    }
}

} // verus!
