//! Architecture-abstracted register snapshots: one tagged variant per
//! supported instruction set, each matching the kernel's
//! register-transfer layout, with a uniform capability to read and
//! mutate the instruction pointer and the stack pointer.

use vstd::prelude::*;

verus! {

/// The widest register width in use; narrower architectures widen into
/// it and truncate on write.
#[allow(non_camel_case_types)]
pub type reg_t = u64;

/// The 32-bit x86 snapshot, in kernel transfer order.
#[derive(Clone, Copy, PartialEq, Eq, Structural, Debug)]
pub struct X86Regs {
    pub ebx: u32,
    pub ecx: u32,
    pub edx: u32,
    pub esi: u32,
    pub edi: u32,
    pub ebp: u32,
    pub eax: u32,
    pub xds: u32,
    pub xes: u32,
    pub xfs: u32,
    pub xgs: u32,
    pub orig_eax: u32,
    pub eip: u32,
    pub xcs: u32,
    pub eflags: u32,
    pub esp: u32,
    pub xss: u32,
}

/// The x86-64 snapshot, in kernel transfer order.
#[derive(Clone, Copy, PartialEq, Eq, Structural, Debug)]
pub struct X64Regs {
    pub r15: u64,
    pub r14: u64,
    pub r13: u64,
    pub r12: u64,
    pub rbp: u64,
    pub rbx: u64,
    pub r11: u64,
    pub r10: u64,
    pub r9: u64,
    pub r8: u64,
    pub rax: u64,
    pub rcx: u64,
    pub rdx: u64,
    pub rsi: u64,
    pub rdi: u64,
    pub orig_rax: u64,
    pub rip: u64,
    pub cs: u64,
    pub eflags: u64,
    pub rsp: u64,
    pub ss: u64,
    pub fs_base: u64,
    pub gs_base: u64,
    pub ds: u64,
    pub es: u64,
    pub fs: u64,
    pub gs: u64,
}

/// The 32-bit ARM snapshot: eighteen general slots, with the stack
/// pointer at slot 13, the link register at 14 and the program counter
/// at 15.
#[derive(Clone, Copy, Debug)]
pub struct ArmRegs {
    pub regs: [u32; 18],
}

/// The 64-bit ARM snapshot: thirty-one general slots (the link register
/// at slot 30) plus named stack pointer, program counter and state.
#[derive(Clone, Copy, Debug)]
pub struct Arm64Regs {
    pub regs: [u64; 31],
    pub sp: u64,
    pub pc: u64,
    pub pstate: u64,
}

/// One thread's raw register capture, in its architecture's layout.
#[derive(Clone, Copy)]
pub enum UserRegs {
    X86(X86Regs),
    X64(X64Regs),
    Arm(ArmRegs),
    Arm64(Arm64Regs),
}

impl UserRegs {
    /// The instruction pointer, widened to the common width.
    pub open spec fn spec_ip(self) -> u64 {
        match self {
            UserRegs::X86(r) => r.eip as u64,
            UserRegs::X64(r) => r.rip,
            UserRegs::Arm(r) => r.regs@[15] as u64,
            UserRegs::Arm64(r) => r.pc,
        }
    }

    /// The stack pointer, widened to the common width.
    pub open spec fn spec_sp(self) -> u64 {
        match self {
            UserRegs::X86(r) => r.esp as u64,
            UserRegs::X64(r) => r.rsp,
            UserRegs::Arm(r) => r.regs@[13] as u64,
            UserRegs::Arm64(r) => r.sp,
        }
    }

    /// The snapshot with its instruction pointer replaced (narrower
    /// architectures keep the low bits).
    pub open spec fn with_ip(self, v: u64) -> UserRegs {
        match self {
            UserRegs::X86(r) => UserRegs::X86(X86Regs { eip: v as u32, ..r }),
            UserRegs::X64(r) => UserRegs::X64(X64Regs { rip: v, ..r }),
            UserRegs::Arm(r) => UserRegs::Arm(
                ArmRegs { regs: vstd::array::spec_array_update(r.regs, 15, v as u32) },
            ),
            UserRegs::Arm64(r) => UserRegs::Arm64(Arm64Regs { pc: v, ..r }),
        }
    }

    /// The snapshot with its stack pointer replaced.
    pub open spec fn with_sp(self, v: u64) -> UserRegs {
        match self {
            UserRegs::X86(r) => UserRegs::X86(X86Regs { esp: v as u32, ..r }),
            UserRegs::X64(r) => UserRegs::X64(X64Regs { rsp: v, ..r }),
            UserRegs::Arm(r) => UserRegs::Arm(
                ArmRegs { regs: vstd::array::spec_array_update(r.regs, 13, v as u32) },
            ),
            UserRegs::Arm64(r) => UserRegs::Arm64(Arm64Regs { sp: v, ..r }),
        }
    }

    pub fn ip(&self) -> (r: u64)
        ensures
            r == self.spec_ip(),
    {
        match self {
            UserRegs::X86(r) => r.eip as u64,
            UserRegs::X64(r) => r.rip,
            UserRegs::Arm(r) => r.regs[15] as u64,
            UserRegs::Arm64(r) => r.pc,
        }
    }

    pub fn sp(&self) -> (r: u64)
        ensures
            r == self.spec_sp(),
    {
        match self {
            UserRegs::X86(r) => r.esp as u64,
            UserRegs::X64(r) => r.rsp,
            UserRegs::Arm(r) => r.regs[13] as u64,
            UserRegs::Arm64(r) => r.sp,
        }
    }

    pub fn set_ip(&mut self, v: u64)
        ensures
            *final(self) == old(self).with_ip(v),
            final(self).spec_ip() == match *old(self) {
                UserRegs::X86(_) | UserRegs::Arm(_) => (v as u32) as u64,
                UserRegs::X64(_) | UserRegs::Arm64(_) => v,
            },
            final(self).spec_sp() == old(self).spec_sp(),
    {
        match self {
            UserRegs::X86(r) => {
                r.eip = #[verifier::truncate] (v as u32);
            },
            UserRegs::X64(r) => {
                r.rip = v;
            },
            UserRegs::Arm(r) => {
                r.regs[15] = #[verifier::truncate] (v as u32);
            },
            UserRegs::Arm64(r) => {
                r.pc = v;
            },
        }
    }

    pub fn set_sp(&mut self, v: u64)
        ensures
            *final(self) == old(self).with_sp(v),
            final(self).spec_sp() == match *old(self) {
                UserRegs::X86(_) | UserRegs::Arm(_) => (v as u32) as u64,
                UserRegs::X64(_) | UserRegs::Arm64(_) => v,
            },
            final(self).spec_ip() == old(self).spec_ip(),
    {
        match self {
            UserRegs::X86(r) => {
                r.esp = #[verifier::truncate] (v as u32);
            },
            UserRegs::X64(r) => {
                r.rsp = v;
            },
            UserRegs::Arm(r) => {
                r.regs[13] = #[verifier::truncate] (v as u32);
            },
            UserRegs::Arm64(r) => {
                r.sp = v;
            },
        }
    }

    /// The link register, where the architecture has one.
    pub fn lr(&self) -> (r: Option<u64>)
        ensures
            r == match *self {
                UserRegs::Arm(a) => Some(a.regs@[14] as u64),
                UserRegs::Arm64(a) => Some(a.regs@[30]),
                UserRegs::X86(_) | UserRegs::X64(_) => None::<u64>,
            },
    {
        match self {
            UserRegs::Arm(a) => Some(a.regs[14] as u64),
            UserRegs::Arm64(a) => Some(a.regs[30]),
            _ => None,
        }
    }
}

} // verus!
