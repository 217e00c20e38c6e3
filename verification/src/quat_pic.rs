//! The programmable interrupt controller and the game pad it reads.
//! Memory-mapped registers: pad at 0x70, enable mask at 0x71, pending
//! mask at 0x72.

use vstd::prelude::*;
use crate::kernel::{QuatByte, QuatKernel};

verus! {

/// IRQ line of the timer.
pub const IRQ_TIMER: u8 = 0;

/// IRQ line of the game pad.
pub const IRQ_PAD: u8 = 1;

/// IRQ line of the graphics unit.
pub const IRQ_GPU: u8 = 2;

/// IRQ line of the synthesizer.
pub const IRQ_SYNTH: u8 = 3;

/// The eight buttons of the game pad.
#[derive(Clone, Copy)]
pub struct QuatPadState {
    pub up: bool,
    pub down: bool,
    pub left: bool,
    pub right: bool,
    pub a: bool,
    pub b: bool,
    pub select: bool,
    pub start: bool,
}

impl Default for QuatPadState {
    /// No button pressed.
    fn default() -> (p: QuatPadState)
        ensures
            !p.up && !p.down && !p.left && !p.right && !p.a && !p.b && !p.select && !p.start,
    {
        QuatPadState {
            up: false,
            down: false,
            left: false,
            right: false,
            a: false,
            b: false,
            select: false,
            start: false,
        }
    }
}

/// `v` if `b`, else 0.
pub open spec fn bit_if(b: bool, v: u8) -> int {
    if b {
        v as int
    } else {
        0
    }
}

/// The pad register: bit 0 up, 1 down, 2 left, 3 right, 4 A, 5 B,
/// 6 select, 7 start.
pub open spec fn pad_byte(p: QuatPadState) -> u8 {
    (bit_if(p.up, 1) + bit_if(p.down, 2) + bit_if(p.left, 4) + bit_if(p.right, 8) + bit_if(p.a, 16)
        + bit_if(p.b, 32) + bit_if(p.select, 64) + bit_if(p.start, 128)) as u8
}

impl QuatPadState {
    /// Packs the buttons into the pad register byte.
    pub fn to_byte(&self) -> (r: u8)
        ensures
            r == pad_byte(*self),
    {
        let mut val = 0u8;
        if self.up {
            val = val + 1;
        }
        if self.down {
            val = val + 2;
        }
        if self.left {
            val = val + 4;
        }
        if self.right {
            val = val + 8;
        }
        if self.a {
            val = val + 16;
        }
        if self.b {
            val = val + 32;
        }
        if self.select {
            val = val + 64;
        }
        if self.start {
            val = val + 128;
        }
        val
    }
}

/// The interrupt controller: enable and pending masks for IRQ 0-3,
/// the handler address of each line and the master switch.
pub struct QuatPIC {
    pub pad: QuatPadState,
    pub irq_enabled: u8,
    pub irq_pending: u8,
    pub vector_table: [u8; 4],
    pub master_enable: bool,
    pub last_serviced_irq: Option<u8>,
}

/// The lowest line `i` in `from..4` whose bit is set in `active`.
pub open spec fn lowest_irq(active: u8, from: u8) -> Option<u8>
    decreases 4 - from,
{
    if from >= 4 {
        None
    } else if active & (1u8 << from) != 0 {
        Some(from)
    } else {
        lowest_irq(active, (from + 1) as u8)
    }
}

impl QuatPIC {
    /// All four lines enabled, nothing pending, handlers at 0x10, 0x14,
    /// 0x18, 0x1C, master switch on.
    pub fn new() -> (p: QuatPIC)
        ensures
            p.irq_enabled == 15,
            p.irq_pending == 0,
            p.vector_table@ == seq![0x10u8, 0x14, 0x18, 0x1C],
            p.master_enable,
            p.last_serviced_irq is None,
            pad_byte(p.pad) == 0,
    {
        let p = QuatPIC {
            pad: QuatPadState::default(),
            irq_enabled: 0b0000_1111,
            irq_pending: 0,
            vector_table: [0x10, 0x14, 0x18, 0x1C],
            master_enable: true,
            last_serviced_irq: None,
        };
        assert(p.vector_table@ =~= seq![0x10u8, 0x14, 0x18, 0x1C]);
        p
    }

    /// Raises line `irq` (0-3; other values are ignored): its pending bit is
    /// set and the pending mask is mirrored to RAM 0x72.
    pub fn trigger_irq(&mut self, irq: u8, kernel: &mut QuatKernel)
        ensures
            irq > 3 ==> *final(self) == *old(self) && *final(kernel) == *old(kernel),
            irq <= 3 ==> {
                &&& final(self).irq_pending == old(self).irq_pending | (1u8 << irq)
                &&& final(kernel).ram@ == old(kernel).ram@.update(0x72, QuatByte(final(self).irq_pending))
                &&& final(self).pad == old(self).pad
                &&& final(self).irq_enabled == old(self).irq_enabled
                &&& final(self).vector_table == old(self).vector_table
                &&& final(self).master_enable == old(self).master_enable
                &&& final(self).last_serviced_irq == old(self).last_serviced_irq
                &&& final(kernel).vram == old(kernel).vram
                &&& final(kernel).reg_a == old(kernel).reg_a
                &&& final(kernel).reg_b == old(kernel).reg_b
                &&& final(kernel).pc == old(kernel).pc
                &&& final(kernel).is_running == old(kernel).is_running
                &&& final(kernel).logs == old(kernel).logs
            },
    {
        if irq > 3 {
            return;
        }
        let mask: u8 = 1u8 << irq;
        self.irq_pending = self.irq_pending | mask;
        kernel.ram[0x72] = QuatByte(self.irq_pending);
    }

    /// Services one interrupt per call: when the master switch is on, the
    /// lowest enabled pending line among 0-3 is cleared (mirrored to RAM
    /// 0x72), remembered, and the kernel jumps to its handler.
    pub fn process_interrupts(&mut self, kernel: &mut QuatKernel)
        ensures
            ({
                let active = old(self).irq_pending & old(self).irq_enabled;
                if !old(self).master_enable || lowest_irq(active, 0) is None {
                    *final(self) == *old(self) && *final(kernel) == *old(kernel)
                } else {
                    let irq = lowest_irq(active, 0)->0;
                    &&& final(self).irq_pending == old(self).irq_pending & !(1u8 << irq)
                    &&& final(kernel).ram@ == old(kernel).ram@.update(0x72, QuatByte(final(self).irq_pending))
                    &&& final(self).last_serviced_irq == Some(irq)
                    &&& final(kernel).pc == old(self).vector_table@[irq as int]
                    &&& final(self).pad == old(self).pad
                    &&& final(self).irq_enabled == old(self).irq_enabled
                    &&& final(self).vector_table == old(self).vector_table
                    &&& final(self).master_enable == old(self).master_enable
                    &&& final(kernel).vram == old(kernel).vram
                    &&& final(kernel).reg_a == old(kernel).reg_a
                    &&& final(kernel).reg_b == old(kernel).reg_b
                    &&& final(kernel).is_running == old(kernel).is_running
                    &&& final(kernel).logs == old(kernel).logs
                }
            }),
    {
        if !self.master_enable {
            return;
        }
        let active_irqs = self.irq_pending & self.irq_enabled;
        if active_irqs == 0 {
            proof {
                lemma_no_irq_in_zero(0);
            }
            return;
        }
        let mut irq: u8 = 0;
        while irq < 4
            invariant
                irq <= 4,
                active_irqs == old(self).irq_pending & old(self).irq_enabled,
                lowest_irq(active_irqs, 0) == lowest_irq(active_irqs, irq),
                *self == *old(self),
                *kernel == *old(kernel),
                old(self).master_enable,
            decreases 4 - irq,
        {
            let mask: u8 = 1u8 << irq;
            if (active_irqs & mask) != 0 {
                assert(lowest_irq(active_irqs, irq) == Some(irq));
                let isr_vector = self.vector_table[irq as usize];
                self.irq_pending = self.irq_pending & !mask;
                kernel.ram[0x72] = QuatByte(self.irq_pending);
                self.last_serviced_irq = Some(irq);
                kernel.pc = isr_vector;
                return;
            }
            irq = irq + 1;
        }
        proof {
            assert(lowest_irq(active_irqs, 4) is None);
        }
    }

    /// Takes a new pad state: when its register byte differs from the
    /// current one, the state is kept, the byte is written to RAM 0x70 and
    /// the pad line (IRQ 1) is raised.
    pub fn update_pad(&mut self, new_state: QuatPadState, kernel: &mut QuatKernel)
        ensures
            pad_byte(new_state) == pad_byte(old(self).pad) ==> *final(self) == *old(self) && *final(kernel)
                == *old(kernel),
            pad_byte(new_state) != pad_byte(old(self).pad) ==> {
                &&& final(self).pad == new_state
                &&& final(self).irq_pending == old(self).irq_pending | 2u8
                &&& final(kernel).ram@ == old(kernel).ram@.update(0x70, QuatByte(pad_byte(new_state))).update(
                    0x72,
                    QuatByte(final(self).irq_pending),
                )
                &&& final(self).irq_enabled == old(self).irq_enabled
                &&& final(self).vector_table == old(self).vector_table
                &&& final(self).master_enable == old(self).master_enable
                &&& final(self).last_serviced_irq == old(self).last_serviced_irq
                &&& final(kernel).vram == old(kernel).vram
                &&& final(kernel).reg_a == old(kernel).reg_a
                &&& final(kernel).reg_b == old(kernel).reg_b
                &&& final(kernel).pc == old(kernel).pc
                &&& final(kernel).is_running == old(kernel).is_running
                &&& final(kernel).logs == old(kernel).logs
            },
    {
        let old_byte = self.pad.to_byte();
        let new_byte = new_state.to_byte();
        if old_byte != new_byte {
            self.pad = new_state;
            kernel.ram[0x70] = QuatByte(new_byte);
            self.trigger_irq(IRQ_PAD, kernel);
            assert(1u8 << 1u8 == 2u8) by (bit_vector);
        }
    }

    /// Switches line `irq` (0-3) on or off in the enable mask and mirrors
    /// the mask to RAM 0x71.
    pub fn set_irq_enabled(&mut self, irq: u8, enabled: bool, kernel: &mut QuatKernel)
        requires
            irq <= 3,
        ensures
            final(self).irq_enabled == (if enabled {
                old(self).irq_enabled | (1u8 << irq)
            } else {
                old(self).irq_enabled & !(1u8 << irq)
            }),
            final(kernel).ram@ == old(kernel).ram@.update(0x71, QuatByte(final(self).irq_enabled)),
            final(self).pad == old(self).pad,
            final(self).irq_pending == old(self).irq_pending,
            final(self).vector_table == old(self).vector_table,
            final(self).master_enable == old(self).master_enable,
            final(self).last_serviced_irq == old(self).last_serviced_irq,
            final(kernel).pc == old(kernel).pc,
            final(kernel).vram == old(kernel).vram,
            final(kernel).reg_a == old(kernel).reg_a,
            final(kernel).reg_b == old(kernel).reg_b,
            final(kernel).is_running == old(kernel).is_running,
            final(kernel).logs == old(kernel).logs,
    {
        let mask: u8 = 1u8 << irq;
        if enabled {
            self.irq_enabled = self.irq_enabled | mask;
        } else {
            self.irq_enabled = self.irq_enabled & !mask;
        }
        kernel.ram[0x71] = QuatByte(self.irq_enabled);
    }

    /// Drops every pending interrupt (mirrored to RAM 0x72) and forgets the
    /// last serviced line.
    pub fn clear_pending(&mut self, kernel: &mut QuatKernel)
        ensures
            final(self).irq_pending == 0,
            final(self).last_serviced_irq is None,
            final(kernel).ram@ == old(kernel).ram@.update(0x72, QuatByte(0)),
            final(self).pad == old(self).pad,
            final(self).irq_enabled == old(self).irq_enabled,
            final(self).vector_table == old(self).vector_table,
            final(self).master_enable == old(self).master_enable,
            final(kernel).pc == old(kernel).pc,
            final(kernel).vram == old(kernel).vram,
            final(kernel).reg_a == old(kernel).reg_a,
            final(kernel).reg_b == old(kernel).reg_b,
            final(kernel).is_running == old(kernel).is_running,
            final(kernel).logs == old(kernel).logs,
    {
        self.irq_pending = 0;
        kernel.ram[0x72] = QuatByte(0);
        self.last_serviced_irq = None;
    }
}

proof fn lemma_no_irq_in_zero(from: u8)
    requires
        from <= 4,
    ensures
        lowest_irq(0u8, from) is None,
    decreases 4 - from,
{
    if from < 4 {
        assert(0u8 & (1u8 << from) == 0u8) by (bit_vector);
        lemma_no_irq_in_zero((from + 1) as u8);
    }
}

/// The line an interrupt service picks is the lowest active one: when any
/// of lines 0-3 is active, the search finds a line `i` whose bit is set
/// and below which every bit is clear; when none is, it finds nothing.
pub proof fn law_lowest_active_line(active: u8)
    ensures
        active & 15u8 != 0 ==> match lowest_irq(active, 0) {
            Some(i) => {
                &&& i < 4
                &&& active & (1u8 << i) != 0
                &&& forall|j: u8| j < i ==> #[trigger] (active & (1u8 << j)) == 0
            },
            None => false,
        },
        active & 15u8 == 0 ==> lowest_irq(active, 0) is None,
{
    reveal_with_fuel(lowest_irq, 5);
    assert(1u8 << 0u8 == 1u8 && 1u8 << 1u8 == 2u8 && 1u8 << 2u8 == 4u8 && 1u8 << 3u8 == 8u8) by (bit_vector);
    assert(active & 15u8 == 0 <==> (active & 1u8 == 0 && active & 2u8 == 0 && active & 4u8 == 0
        && active & 8u8 == 0)) by (bit_vector);
}

} // verus!
