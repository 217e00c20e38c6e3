//! Laws of the QuatDOS status reports, kept apart from the shell so that
//! the texts they read stay opaque to the shell's own proofs.

use vstd::prelude::*;
use crate::kernel::QuatKernel;
use crate::quat_dos::mem_lines;

verus! {

/// `MEM` reports the accumulator, register A: the two hex digits of its
/// accumulator line read back as `reg_a`, and the Z flag after `Z:` is 1
/// exactly when that value is zero.
pub proof fn law_mem_reports_accumulator(k: QuatKernel)
    ensures
        mem_lines(k)[2].0.len() == 26,
        crate::text::digits_value(mem_lines(k)[2].0.skip(24), 16) == k.reg_a.0,
        (mem_lines(k)[3].0[24] == '1') == (crate::text::digits_value(mem_lines(k)[2].0.skip(24), 16) == 0),
        mem_lines(k)[3].0[24] == '1' || mem_lines(k)[3].0[24] == '0',
{
    reveal_strlit("ACC (Akumulator):     0x");
    reveal_strlit("FLAGS (Zero/Carry):   Z:");
    reveal_strlit("1");
    reveal_strlit("0");
    crate::text::lemma_hex_byte(k.reg_a.0 as nat);
    let acc = mem_lines(k)[2].0;
    assert(acc.skip(24) =~= crate::text::hex_pad(k.reg_a.0 as nat, 2));
    let z = mem_lines(k)[3].0;
    assert(z[24] == (if k.reg_a.0 == 0 { '1' } else { '0' }));
}

} // verus!
