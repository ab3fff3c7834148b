//! The hart masks handed to the firmware's inter-processor signal.
use vstd::prelude::*;
use vstd::arithmetic::power2::pow2;
use vstd::bits::lemma_usize_shl_is_mul;
use vstd::arithmetic::power2::lemma_pow2_strictly_increases;
use vstd::arithmetic::power2::lemma2_to64;

verus! {

/// The hart mask that selects exactly hart `cpu_id`: the one the kernel hands
/// to the firmware to wake that hart.
pub fn send_ipi(cpu_id: usize) -> (mask: usize)
    requires
        cpu_id < usize::BITS,
    ensures
        mask as nat == pow2(cpu_id as nat),
{
    proof {
        lemma2_to64();
        lemma_pow2_strictly_increases(cpu_id as nat, usize::BITS as nat);
        lemma_usize_shl_is_mul(1, cpu_id);
    }
    1usize << cpu_id
}

/// The hart mask that selects every hart: the one the boot hart hands to the
/// firmware to wake all the others once shared state is published.
pub fn broadcast_ipi() -> (mask: usize)
    ensures
        mask == usize::MAX,
{
    usize::MAX
}

} // verus!
