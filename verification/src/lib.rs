//! Core of a process debugger: executable-image symbol classification,
//! live-process metadata parsing, memory-map module derivation,
//! architecture-abstracted register snapshots, and the trace-event
//! handling contract.
//!
//! All operations here are pure over the byte contents of the
//! OS-exposed resources; the thin layer that actually reads those
//! resources lives outside this library.

use vstd::prelude::*;

pub mod elf;
pub mod memory;
pub mod module;
pub mod process;
pub mod regs;
pub mod shell;
pub mod symbol;
pub mod trace;
pub mod strutil;

verus! {

/// Process identifier, as the kernel reports it.
#[allow(non_camel_case_types)]
pub type pid_t = i32;

/// Thread (task) identifier.
#[allow(non_camel_case_types)]
pub type tid_t = i32;

} // verus!

