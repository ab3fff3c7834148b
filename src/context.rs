//! The register snapshot saved and restored at each privilege-boundary crossing.
use vstd::prelude::*;
use riscv::register::sstatus::Sstatus;
use riscv::register::sstatus::SPP;

verus! {

/// Index of the stack pointer among the general-purpose registers.
pub const REG_SP: usize = 2;

/// Size in bytes of a saved context: 32 registers, the status and the program counter.
pub const TRAP_CONTEXT_SIZE: usize = 272;

/// Bits of `sstatus` that name a field on a 64-bit hart.
pub const SSTATUS_MASK: u64 = 0x8000_0003_000d_e762;

/// Bits of `sstatus` that name a field on a 32-bit hart.
pub const SSTATUS_MASK_32: u64 = 0x800d_e762;

/// The bits of `sstatus` that name a field on a hart of this word size.
pub open spec fn status_mask() -> u64 {
    if usize::BITS == 32 {
        SSTATUS_MASK_32
    } else {
        SSTATUS_MASK
    }
}

/// Supervisor previous interrupt enable.
pub const SSTATUS_SPIE: u64 = 0x20;

/// Supervisor previous privilege: set for supervisor, clear for user.
pub const SSTATUS_SPP: u64 = 0x100;

/// All general-purpose registers, the status register and the saved program counter.
pub struct TrapContext {
    pub x: [usize; 32],
    pub sstatus: usize,
    pub sepc: usize,
}

/// `current` with the previous privilege set to user and previous interrupts
/// enabled, so that a return from supervisor mode lands in user mode with
/// interrupts on.
pub open spec fn user_status(current: usize) -> usize {
    (((((current as u64) & status_mask()) & !SSTATUS_SPP) | SSTATUS_SPIE) & status_mask()) as usize
}

/// Relies on riscv's `Sstatus::from_bits`, `set_spp`, `set_spie` and `bits`,
/// which mask the value and insert one bit field each.
#[verifier::external_body]
fn user_mode_status(current: usize) -> (r: usize)
    ensures
        r == user_status(current),
{
    let mut s = Sstatus::from_bits(current);
    s.set_spp(SPP::User);
    s.set_spie(true);
    s.bits()
}

/// `cx` is the context an app starts from: it resumes at `entry` in user mode,
/// on the stack `sp`, with every other register zero.
pub open spec fn is_initial_context(cx: TrapContext, entry: usize, sp: usize, current_status: usize) -> bool {
    &&& cx.sepc == entry
    &&& cx.sstatus == user_status(current_status)
    &&& cx.x@[REG_SP as int] == sp
    &&& forall|i: int| 0 <= i < 32 && i != REG_SP ==> cx.x@[i] == 0
}

impl TrapContext {
    /// Sets the stack pointer register.
    pub fn set_sp(&mut self, sp: usize)
        ensures
            final(self).x@ == old(self).x@.update(REG_SP as int, sp),
            final(self).sstatus == old(self).sstatus,
            final(self).sepc == old(self).sepc,
    {
        self.x[REG_SP] = sp;
    }

    /// The context that starts an app at `entry` on the user stack `sp`, with
    /// the status derived from the hart's `current_status`.
    pub fn app_init_context(entry: usize, sp: usize, current_status: usize) -> (cx: TrapContext)
        ensures
            is_initial_context(cx, entry, sp, current_status),
    {
        let mut cx = TrapContext { x: [0usize; 32], sstatus: user_mode_status(current_status), sepc: entry };
        cx.set_sp(sp);
        cx
    }
}

} // verus!
