//! The system calls that apps can make.
use vstd::prelude::*;
use crate::batch::{AppManagerInner, Hart, RunStep, run_next_app, turn_taken, untouched};

verus! {

/// The id of `exit`.
pub const SYSCALL_EXIT: usize = 93;

/// What `exit` did: the code to log, and the turn of the run loop that
/// replaced the exiting app.
#[derive(PartialEq, Eq, Structural, Debug, Clone, Copy)]
pub struct ExitRecord {
    pub code: i32,
    pub next: RunStep,
}

/// What a system call did.
#[derive(PartialEq, Eq, Structural, Debug, Clone, Copy)]
pub enum SyscallOutcome {
    /// The app exited; it is never resumed.
    Exited(ExitRecord),
    /// No system call has this id: a fatal error of the kernel.
    Unsupported { id: usize },
}

/// Terminates the running app with `xstate` and takes the next turn of the
/// run loop; control never goes back to the app.
pub fn sys_exit(xstate: i32, manager: &mut AppManagerInner, hart: &mut Hart, current_status: usize) -> (r: ExitRecord)
    requires
        old(manager).wf(),
        old(hart).wf(),
    ensures
        final(manager).wf(),
        final(hart).wf(),
        r.code == xstate,
        turn_taken(*old(manager), *final(manager), *old(hart), *final(hart), current_status, r.next),
{
    let next = run_next_app(manager, hart, current_status);
    ExitRecord { code: xstate, next }
}

/// Dispatches system call `id` with arguments `args`.
pub fn syscall(id: usize, args: [usize; 3], manager: &mut AppManagerInner, hart: &mut Hart, current_status: usize) -> (r: SyscallOutcome)
    requires
        old(manager).wf(),
        old(hart).wf(),
    ensures
        final(manager).wf(),
        final(hart).wf(),
        id == SYSCALL_EXIT ==> (r matches SyscallOutcome::Exited(e) && e.code == args@[0] as i32
            && turn_taken(*old(manager), *final(manager), *old(hart), *final(hart), current_status, e.next)),
        id != SYSCALL_EXIT ==> (r == (SyscallOutcome::Unsupported { id })
            && untouched(*old(manager), *final(manager), *old(hart), *final(hart))),
{
    if id == SYSCALL_EXIT {
        SyscallOutcome::Exited(sys_exit(args[0] as i32, manager, hart, current_status))
    } else {
        proof {
            reveal(untouched);
        }
        SyscallOutcome::Unsupported { id }
    }
}

} // verus!
