//! The trace-event handling contract: the per-stop context a driver
//! fills, the callback trait a debugger implementation provides, and
//! the state machine one stop-handle-continue cycle follows.

use vstd::prelude::*;

use crate::process::Process;
use crate::regs::UserRegs;
use crate::tid_t;
use std::sync::Arc;

verus! {

/// Pending-signal metadata of a stopped thread.
#[derive(Clone, Copy, PartialEq, Eq, Structural, Debug)]
pub struct SigInfo {
    pub signo: i32,
    pub code: i32,
    pub errno: i32,
}

/// The per-stop context: the traced process, the stopped thread, its
/// register snapshot with the dirty flag, and the raw signal
/// information.  It lives for one stop-handle-continue cycle and is
/// owned by the thread driving that cycle.
pub struct TraceBuf {
    pub target: Arc<Process>,
    pub tid: tid_t,
    pub user: UserRegs,
    pub regs_dirty: bool,
    pub si: SigInfo,
}

impl TraceBuf {
    /// Mutate the instruction pointer through the context: the snapshot
    /// changes and is marked dirty, so the resume step writes it back.
    pub fn set_ip(&mut self, v: u64)
        ensures
            final(self).user == old(self).user.with_ip(v),
            final(self).regs_dirty == true,
            final(self).tid == old(self).tid && final(self).si == old(self).si,
            final(self).target == old(self).target,
    {
        self.user.set_ip(v);
        self.regs_dirty = true;
    }

    /// Mutate the stack pointer through the context, marking the
    /// snapshot dirty.
    pub fn set_sp(&mut self, v: u64)
        ensures
            final(self).user == old(self).user.with_sp(v),
            final(self).regs_dirty == true,
            final(self).tid == old(self).tid && final(self).si == old(self).si,
            final(self).target == old(self).target,
    {
        self.user.set_sp(v);
        self.regs_dirty = true;
    }

    /// Must the resume step write the registers back first?  Exactly
    /// when the in-memory snapshot was mutated since the last
    /// write-back.
    pub fn needs_writeback(&self) -> (r: bool)
        ensures
            r == self.regs_dirty,
    {
        self.regs_dirty
    }

    /// The resume step has written the snapshot back.
    pub fn mark_written_back(&mut self)
        ensures
            final(self).regs_dirty == false,
            final(self).user == old(self).user && final(self).tid == old(self).tid,
            final(self).si == old(self).si && final(self).target == old(self).target,
    {
        self.regs_dirty = false;
    }
}

/// How a handled event resumes the thread: a signal number to deliver,
/// or none to suppress.
pub type HandleResult = Option<i32>;

/// A typed trace event handed to the callback.
#[derive(Clone, Copy, PartialEq, Eq, Structural, Debug)]
pub enum UEvent {
    Init,
    Step,
    Breakpoint,
    ThreadCreate(tid_t),
    ThreadExit(u32),
    ProcessExit(u32),
    Signal(i32),
}

/// The callback's reply, deciding how the tracee continues.
#[derive(Clone, Copy, PartialEq, Eq, Structural, Debug)]
pub enum UserReply {
    Run,
    Step,
    Stop,
}

/// The contract a debugger driver implements: fetch the next event
/// into the context, dispatch it, and resume the tracee.  The callback
/// reference a driver holds is valid only for the duration of one
/// `handle` call and must not be retained past it.
pub trait EventHandler {
    /// Fetch a debug event; nothing means no event is available and the
    /// session should stop polling.
    fn fetch(&self, buf: &mut TraceBuf) -> Option<()>;

    /// Handle the fetched event; nothing means the event needs no
    /// further driver action.
    fn handle(&self, buf: &mut TraceBuf) -> Option<HandleResult>;

    /// Resume the tracee, delivering or suppressing the signal; if the
    /// snapshot is dirty it must be written back first.
    fn cont(&self, sig: HandleResult, buf: &mut TraceBuf);
}

/// The states one trace loop walks through; `Exited` is terminal.
#[derive(Clone, Copy, PartialEq, Eq, Structural, Debug)]
pub enum TraceState {
    WaitingForEvent,
    EventReceived,
    Handling,
    Continuing,
    Exited,
}

/// The loop's transition relation: waiting either receives an event or
/// ends the session; a received exit event ends it; otherwise the
/// event is handled, the thread resumed, and the loop waits again.
pub open spec fn spec_advance(s: TraceState, event_available: bool, is_exit: bool) -> TraceState {
    match s {
        TraceState::WaitingForEvent => if event_available {
            TraceState::EventReceived
        } else {
            TraceState::Exited
        },
        TraceState::EventReceived => if is_exit {
            TraceState::Exited
        } else {
            TraceState::Handling
        },
        TraceState::Handling => TraceState::Continuing,
        TraceState::Continuing => TraceState::WaitingForEvent,
        TraceState::Exited => TraceState::Exited,
    }
}

/// Advance the trace loop by one step.
pub fn advance(s: TraceState, event_available: bool, is_exit: bool) -> (r: TraceState)
    ensures
        r == spec_advance(s, event_available, is_exit),
{
    match s {
        TraceState::WaitingForEvent => if event_available {
            TraceState::EventReceived
        } else {
            TraceState::Exited
        },
        TraceState::EventReceived => if is_exit {
            TraceState::Exited
        } else {
            TraceState::Handling
        },
        TraceState::Handling => TraceState::Continuing,
        TraceState::Continuing => TraceState::WaitingForEvent,
        TraceState::Exited => TraceState::Exited,
    }
}

/// Law: the exit state is terminal — no step leaves it — and a full
/// handled cycle returns the loop to waiting.
pub proof fn lemma_trace_loop_shape(event_available: bool, is_exit: bool)
    ensures
        spec_advance(TraceState::Exited, event_available, is_exit) == TraceState::Exited,
        spec_advance(
            spec_advance(
                spec_advance(spec_advance(TraceState::WaitingForEvent, true, false), false, false),
                event_available,
                is_exit,
            ),
            event_available,
            is_exit,
        ) == TraceState::WaitingForEvent,
{
}

/// What a signal number names on this platform: a function of the
/// number alone.
pub uninterp spec fn sig_name_of(code: i32) -> Option<Seq<char>>;

/// Relies on nix's `Signal::try_from` and the derived `Debug` name of
/// the resulting variant: whether a number is a known signal, and the
/// name it carries, depend on the number alone.
#[verifier::external_body]
fn signal_debug_name(code: i32) -> (r: Option<String>)
    ensures
        r is Some <==> sig_name_of(code) is Some,
        r matches Some(s) ==> Some(s@) == sig_name_of(code),
{
    nix::sys::signal::Signal::try_from(code).ok().map(|s| format!("{:?}", s))
}

/// The name of an exception (signal) code, or an empty string for a
/// code the platform does not know.
pub fn get_exception_name(code: u32) -> (r: String)
    ensures
        r@ == match sig_name_of(code as i32) {
            Some(n) => n,
            None => Seq::<char>::empty(),
        },
{
    match signal_debug_name(#[verifier::truncate] (code as i32)) {
        Some(s) => s,
        None => String::new(),
    }
}

} // verus!
