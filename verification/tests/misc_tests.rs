use udbg_core::process::Process;
use udbg_core::regs::{Arm64Regs, UserRegs, X64Regs};
use udbg_core::shell::{
    HandleInfo, ProcessInfo, ShellData, SimpleUDbgShell, UDbgError, UDbgResult, UDbgUtil,
};
use udbg_core::strutil::{parse_dec, parse_hex};
use udbg_core::symbol::{Symbol, UDbgFlags, UNDEC_NAME_ONLY, UNDEC_RETN, UNDEC_TYPE, SHOW_OUTPUT};
use udbg_core::trace::{advance, get_exception_name, SigInfo, TraceBuf, TraceState};
use std::sync::Arc;

#[test]
fn decimal_parsing_is_exact_and_bounded() {
    assert_eq!(parse_dec(b"0"), Some(0));
    assert_eq!(parse_dec(b"12345"), Some(12345));
    assert_eq!(parse_dec(b""), None);
    assert_eq!(parse_dec(b"12a"), None);
    assert_eq!(parse_dec(b"999999999"), Some(999_999_999));
    assert_eq!(parse_dec(b"1234567890"), None);
}

#[test]
fn hexadecimal_parsing_is_exact_and_bounded() {
    assert_eq!(parse_hex(b"0"), Some(0));
    assert_eq!(parse_hex(b"ff"), Some(255));
    assert_eq!(parse_hex(b"7f1c2d"), Some(0x7f1c2d));
    assert_eq!(parse_hex(b"FF"), None); // the map description is lower case
    assert_eq!(parse_hex(b""), None);
    assert_eq!(parse_hex(b"fffffffffffffff"), Some(0xfff_ffff_ffff_ffff));
}

fn x64_snapshot() -> UserRegs {
    UserRegs::X64(X64Regs {
        r15: 0, r14: 0, r13: 0, r12: 0, rbp: 1, rbx: 2, r11: 0, r10: 0, r9: 0, r8: 0,
        rax: 3, rcx: 4, rdx: 5, rsi: 6, rdi: 7, orig_rax: 0, rip: 0x401000, cs: 0x33,
        eflags: 0x202, rsp: 0x7ffd0000, ss: 0x2b, fs_base: 0, gs_base: 0, ds: 0, es: 0,
        fs: 0, gs: 0,
    })
}

fn arm64_snapshot() -> UserRegs {
    UserRegs::Arm64(Arm64Regs { regs: [0; 31], sp: 0x8000, pc: 0x1000, pstate: 0 })
}

#[test]
fn instruction_and_stack_pointer_are_uniformly_accessible() {
    let mut r = x64_snapshot();
    assert_eq!(r.ip(), 0x401000);
    assert_eq!(r.sp(), 0x7ffd0000);
    r.set_ip(0x402000);
    r.set_sp(0x7ffe0000);
    assert_eq!(r.ip(), 0x402000);
    assert_eq!(r.sp(), 0x7ffe0000);
    assert_eq!(r.lr(), None);

    let mut a = arm64_snapshot();
    assert_eq!(a.ip(), 0x1000);
    assert_eq!(a.sp(), 0x8000);
    a.set_ip(0x2000);
    assert_eq!(a.ip(), 0x2000);
    assert_eq!(a.lr(), Some(0));
}

#[test]
fn mutating_registers_through_the_context_sets_the_dirty_flag() {
    let target = Arc::new(Process::from_pid(1, true).expect("must exist"));
    let mut buf = TraceBuf {
        target,
        tid: 1,
        user: x64_snapshot(),
        regs_dirty: false,
        si: SigInfo { signo: 5, code: 0, errno: 0 },
    };
    assert!(!buf.needs_writeback());
    buf.set_ip(0x1234);
    assert!(buf.needs_writeback());
    assert_eq!(buf.user.ip(), 0x1234);
    buf.mark_written_back();
    assert!(!buf.needs_writeback());
}

#[test]
fn the_trace_loop_cycles_and_exit_is_terminal() {
    let s0 = TraceState::WaitingForEvent;
    let s1 = advance(s0, true, false);
    assert_eq!(s1, TraceState::EventReceived);
    let s2 = advance(s1, true, false);
    assert_eq!(s2, TraceState::Handling);
    let s3 = advance(s2, true, false);
    assert_eq!(s3, TraceState::Continuing);
    let s4 = advance(s3, true, false);
    assert_eq!(s4, TraceState::WaitingForEvent);
    // no event: stop polling
    assert_eq!(advance(s4, false, false), TraceState::Exited);
    // an exit event ends the loop, and the end state is terminal
    assert_eq!(advance(TraceState::EventReceived, true, true), TraceState::Exited);
    assert_eq!(advance(TraceState::Exited, true, false), TraceState::Exited);
}

#[test]
fn exception_names_follow_the_platform_signal_table() {
    assert_eq!(get_exception_name(9), "SIGKILL");
    assert_eq!(get_exception_name(11), "SIGSEGV");
    assert_eq!(get_exception_name(5), "SIGTRAP");
    assert_eq!(get_exception_name(0), "");
    assert_eq!(get_exception_name(12345), "");
}

#[test]
fn undecorate_demangles_with_the_chosen_flags() {
    let full = Symbol::undecorate("_ZN5space3fooEibc", UDbgFlags(0)).expect("must demangle");
    assert_eq!(full, "space::foo(int, bool, char)");
    let bare = Symbol::undecorate("_ZN5space3fooEibc", UDbgFlags(UNDEC_TYPE | UNDEC_RETN))
        .expect("must demangle");
    assert_eq!(bare, "space::foo");
    assert!(Symbol::undecorate("not_mangled_at_all ", UDbgFlags(0)).is_none());
}

#[test]
fn default_flags_show_output_and_undecorate_to_the_name() {
    let f = UDbgFlags::default();
    assert!(f.contains(SHOW_OUTPUT));
    assert!(f.contains(UNDEC_NAME_ONLY));
    assert!(!f.contains(UNDEC_TYPE));
    assert!(!f.contains(UNDEC_RETN));
}

struct NoUtil;

impl UDbgUtil for NoUtil {}

#[test]
fn handle_enumeration_is_not_supported_on_this_platform() {
    let u = NoUtil;
    let r: UDbgResult<Vec<HandleInfo>> = u.enum_process_handle(1);
    assert!(matches!(r, Err(UDbgError::NotSupport)));
}

#[test]
fn shell_defaults_are_empty() {
    let d = ShellData::default();
    assert!(d.symcache.is_none());
    assert!(!d.trace_child);
    let s = SimpleUDbgShell::default();
    assert!(s.base().symcache.is_none());
    assert!(!s.base().trace_child);
}

#[test]
fn process_info_and_handle_info_carry_plain_values() {
    let pi = ProcessInfo {
        pid: 7,
        wow64: false,
        name: "cat".to_string(),
        path: "/bin/cat".to_string(),
        cmdline: "cat /etc/hosts".to_string(),
    };
    assert_eq!(pi.pid, 7);
    let hi = HandleInfo {
        pid: 7,
        ty: 0,
        handle: 3,
        kind_name: "file".to_string(),
        name: "/etc/hosts".to_string(),
    };
    assert_eq!(hi.handle, 3);
}
