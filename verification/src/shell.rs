//! High-level types a user-facing session works with.  The session
//! object replaces any global shell state: whoever drives the core
//! constructs one and passes it along.

use vstd::prelude::*;

use crate::pid_t;

verus! {

/// Process information for presentation.
pub struct ProcessInfo {
    /// Process ID.
    pub pid: pid_t,
    /// Whether the process runs a 32-bit image under a 64-bit kernel.
    pub wow64: bool,
    /// Process name.
    pub name: String,
    /// Image path of this process.
    pub path: String,
    /// Command line of this process.
    pub cmdline: String,
}

/// Handle/descriptor information for presentation.
pub struct HandleInfo {
    /// Process ID owning this handle.
    pub pid: pid_t,
    /// Type number of this handle.
    pub ty: u32,
    /// Handle or descriptor value.
    pub handle: usize,
    /// Type name of this handle.
    pub kind_name: String,
    /// Name of this handle: a file path, a pipe name, a socket number.
    pub name: String,
}

/// Session-wide data a shell holds.
pub struct ShellData {
    /// Where downloaded symbol files would be cached; none here.
    pub symcache: Option<String>,
    /// Whether child processes are traced too.
    pub trace_child: bool,
}

impl Default for ShellData {
    /// The default session data: no symbol cache, children untraced.
    fn default() -> (r: ShellData)
        ensures
            r.symcache is None,
            r.trace_child == false,
    {
        ShellData { symcache: None, trace_child: false }
    }
}

/// The errors this library reports to a session.
#[derive(Clone, Copy, PartialEq, Eq, Structural, Debug)]
pub enum UDbgError {
    NotSupport,
}

pub type UDbgResult<T> = Result<T, UDbgError>;

/// Utilities a platform integration may provide; enumerating another
/// process's handles is not supported on this platform.
pub trait UDbgUtil {
    fn enum_process_handle(&self, pid: pid_t) -> (r: UDbgResult<Vec<HandleInfo>>)
        ensures
            r matches Err(UDbgError::NotSupport),
    {
        Err(UDbgError::NotSupport)
    }
}

/// A minimal shell: nothing but the session data.
pub struct SimpleUDbgShell(pub ShellData);

impl Default for SimpleUDbgShell {
    fn default() -> (r: SimpleUDbgShell)
        ensures
            r.0.symcache is None,
            r.0.trace_child == false,
    {
        SimpleUDbgShell(ShellData { symcache: None, trace_child: false })
    }
}

impl SimpleUDbgShell {
    /// The session data.
    pub fn base(&self) -> (r: &ShellData)
        ensures
            r == &self.0,
    {
        &self.0
    }
}

} // verus!
