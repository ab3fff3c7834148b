//! Trap dispatch: system calls, app faults and fatal causes.
use vstd::prelude::*;
use riscv::interrupt::supervisor::{Exception, Interrupt};
use riscv::interrupt::Trap;
use riscv::register::scause::Scause;
use crate::batch::{AppManagerInner, Hart, RunStep, run_next_app, turn_taken, untouched};
use crate::context::TrapContext;
use crate::syscall::{ExitRecord, SyscallOutcome, syscall};

verus! {

/// Register that carries the system call id.
pub const REG_SYSCALL_ID: usize = 17;

/// First of the three registers that carry system call arguments.
pub const REG_ARG0: usize = 10;

/// Width of the environment-call instruction.
pub const ECALL_WIDTH: usize = 4;

/// The trap causes the kernel tells apart.
#[derive(PartialEq, Eq, Structural, Debug, Clone, Copy)]
pub enum TrapCause {
    UserEnvCall,
    StoreFault,
    StorePageFault,
    IllegalInstruction,
    Other,
}

/// The cause that an `scause` value records, by the privileged architecture's
/// numbering of exceptions; interrupts and other exceptions are `Other`.
pub open spec fn cause_of(scause: usize) -> TrapCause {
    if scause == 8 {
        TrapCause::UserEnvCall
    } else if scause == 7 {
        TrapCause::StoreFault
    } else if scause == 15 {
        TrapCause::StorePageFault
    } else if scause == 2 {
        TrapCause::IllegalInstruction
    } else {
        TrapCause::Other
    }
}

/// Relies on riscv's `Scause::from_bits`, `Scause::cause` and `Trap::try_into`
/// with the supervisor `Exception` numbering: a value with the interrupt bit
/// clear is the exception whose number it is.
#[verifier::external_body]
fn decode_cause(scause: usize) -> (c: TrapCause)
    ensures
        c == cause_of(scause),
{
    match Scause::from_bits(scause).cause().try_into::<Interrupt, Exception>() {
        Ok(Trap::Exception(Exception::UserEnvCall)) => TrapCause::UserEnvCall,
        Ok(Trap::Exception(Exception::StoreFault)) => TrapCause::StoreFault,
        Ok(Trap::Exception(Exception::StorePageFault)) => TrapCause::StorePageFault,
        Ok(Trap::Exception(Exception::IllegalInstruction)) => TrapCause::IllegalInstruction,
        _ => TrapCause::Other,
    }
}

/// Whether a cause ends the app as faulty.
pub open spec fn is_app_fault(c: TrapCause) -> bool {
    c == TrapCause::StoreFault || c == TrapCause::StorePageFault || c == TrapCause::IllegalInstruction
}

/// What handling a trap did.
#[derive(PartialEq, Eq, Structural, Debug, Clone, Copy)]
pub enum TrapOutcome {
    /// The app exited through a system call.
    AppExited(ExitRecord),
    /// The app faulted and was dropped; `next` is the turn that replaced it.
    AppFaulted { cause: TrapCause, next: RunStep },
    /// The app asked for a system call that does not exist: fatal.
    UnsupportedSyscall { id: usize },
    /// A trap the kernel cannot handle: fatal.
    UnsupportedTrap { scause: usize, stval: usize },
}

/// `pc` advanced past one environment-call instruction, wrapping as the hart does.
pub open spec fn pc_after_ecall(pc: usize) -> usize {
    if pc + ECALL_WIDTH <= usize::MAX {
        (pc + ECALL_WIDTH) as usize
    } else {
        (pc + ECALL_WIDTH - usize::MAX - 1) as usize
    }
}

/// Moves the saved program counter past the environment-call instruction.
fn advance_pc(cx: &mut TrapContext)
    ensures
        final(cx).sepc == pc_after_ecall(old(cx).sepc),
        final(cx).x == old(cx).x,
        final(cx).sstatus == old(cx).sstatus,
{
    if cx.sepc <= usize::MAX - ECALL_WIDTH {
        cx.sepc = cx.sepc + ECALL_WIDTH;
    } else {
        cx.sepc = cx.sepc - (usize::MAX - (ECALL_WIDTH - 1));
    }
}

/// The system call branch of the trap handler.
fn handle_syscall(cx: &mut TrapContext, manager: &mut AppManagerInner, hart: &mut Hart, current_status: usize) -> (r: TrapOutcome)
    requires
        old(manager).wf(),
        old(hart).wf(),
    ensures
        final(manager).wf(),
        final(hart).wf(),
        final(cx).sepc == pc_after_ecall(old(cx).sepc),
        final(cx).x == old(cx).x,
        final(cx).sstatus == old(cx).sstatus,
        old(cx).x@[REG_SYSCALL_ID as int] == crate::syscall::SYSCALL_EXIT ==> (r matches TrapOutcome::AppExited(e)
            && e.code == old(cx).x@[REG_ARG0 as int] as i32
            && turn_taken(*old(manager), *final(manager), *old(hart), *final(hart), current_status, e.next)),
        old(cx).x@[REG_SYSCALL_ID as int] != crate::syscall::SYSCALL_EXIT ==> (r == (TrapOutcome::UnsupportedSyscall { id: old(cx).x@[REG_SYSCALL_ID as int] })
            && untouched(*old(manager), *final(manager), *old(hart), *final(hart))),
{
    advance_pc(cx);
    let id = cx.x[REG_SYSCALL_ID];
    let args = [cx.x[REG_ARG0], cx.x[REG_ARG0 + 1], cx.x[REG_ARG0 + 2]];
    match syscall(id, args, manager, hart, current_status) {
        SyscallOutcome::Exited(e) => TrapOutcome::AppExited(e),
        SyscallOutcome::Unsupported { id: unknown } => TrapOutcome::UnsupportedSyscall { id: unknown },
    }
}

/// Handles a trap whose cause and value the hardware recorded in `scause`
/// and `stval`, with the app's registers saved in `cx`. No outcome resumes
/// the app: a system call either ends it or is fatal, a fault drops it.
pub fn trap_handler(
    cx: &mut TrapContext,
    scause: usize,
    stval: usize,
    manager: &mut AppManagerInner,
    hart: &mut Hart,
    current_status: usize,
) -> (r: TrapOutcome)
    requires
        old(manager).wf(),
        old(hart).wf(),
    ensures
        final(manager).wf(),
        final(hart).wf(),
        cause_of(scause) == TrapCause::UserEnvCall ==> {
            let id = old(cx).x@[REG_SYSCALL_ID as int];
            &&& final(cx).sepc == pc_after_ecall(old(cx).sepc)
            &&& final(cx).x@ == old(cx).x@
            &&& final(cx).sstatus == old(cx).sstatus
            &&& (id == crate::syscall::SYSCALL_EXIT ==> (r matches TrapOutcome::AppExited(e)
                && e.code == old(cx).x@[REG_ARG0 as int] as i32
                && turn_taken(*old(manager), *final(manager), *old(hart), *final(hart), current_status, e.next)))
            &&& (id != crate::syscall::SYSCALL_EXIT ==> (r == (TrapOutcome::UnsupportedSyscall { id })
                && untouched(*old(manager), *final(manager), *old(hart), *final(hart))))
        },
        is_app_fault(cause_of(scause)) ==> {
            &&& *final(cx) == *old(cx)
            &&& r matches TrapOutcome::AppFaulted { cause, next } && cause == cause_of(scause)
                && turn_taken(*old(manager), *final(manager), *old(hart), *final(hart), current_status, next)
        },
        cause_of(scause) == TrapCause::Other ==> {
            &&& *final(cx) == *old(cx)
            &&& r == (TrapOutcome::UnsupportedTrap { scause, stval })
            &&& untouched(*old(manager), *final(manager), *old(hart), *final(hart))
        },
{
    let cause = decode_cause(scause);
    match cause {
        TrapCause::UserEnvCall => {
            handle_syscall(cx, manager, hart, current_status)
        },
        TrapCause::StoreFault | TrapCause::StorePageFault | TrapCause::IllegalInstruction => {
            let next = run_next_app(manager, hart, current_status);
            TrapOutcome::AppFaulted { cause, next }
        },
        TrapCause::Other => {
            proof {
                reveal(untouched);
            }
            TrapOutcome::UnsupportedTrap { scause, stval }
        },
    }
}

} // verus!
