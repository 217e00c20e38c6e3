//! The logic analyzer: one bus sample per CPU cycle, kept in a bounded
//! trace, with breakpoints on the program counter and on the data bus.

use vstd::prelude::*;
use std::collections::VecDeque;
use crate::kernel::QuatKernel;
use crate::text::{chars_of, dec_str, hex_pad, parse_unsigned, parse_unsigned_chars, push_dec, push_radix, trim, trim_chars};

verus! {

/// The signals seen on the bus in one cycle.
#[derive(Clone, Debug)]
pub struct BusSample {
    pub cycle: usize,
    pub clk: bool,
    pub rw: bool,
    pub pc_addr: u8,
    pub data_bus: u8,
    pub reg_a: u8,
    pub reg_b: u8,
}

/// The analyzer: the trace, its length limit, the cycle counter and the
/// breakpoint fields as typed by the user.
pub struct QuatLogic {
    pub history: VecDeque<BusSample>,
    pub max_samples: usize,
    pub clock_cycle: usize,
    pub break_pc: String,
    pub break_data: String,
    pub breakpoint_hit: bool,
    pub is_sampling: bool,
    pub status_msg: String,
}

/// The byte that a breakpoint field names: its trimmed text parsed as a
/// decimal byte.
pub open spec fn breakpoint_value(field: Seq<char>) -> Option<nat> {
    parse_unsigned(trim(field), 10, 255)
}

/// The status line after the program counter breakpoint fired at `pc`.
pub open spec fn pc_trap_message(pc: u8) -> Seq<char> {
    "🎯 BREAKPOINT TRAP! PC dostigao 0x"@ + hex_pad(pc as nat, 2)
}

/// The status line after the data breakpoint fired on `data`.
pub open spec fn data_trap_message(data: u8) -> Seq<char> {
    "🎯 BREAKPOINT TRAP! Data Bus ima vrednost "@ + dec_str(data as nat) + " (0x"@ + hex_pad(data as nat, 2)
        + ")"@
}

fn breakpoint_of(field: &String) -> (r: Option<u8>)
    ensures
        r is Some <==> breakpoint_value(field@) is Some,
        r is Some ==> r->0 == breakpoint_value(field@)->0,
{
    let cs = chars_of(field.as_str());
    let t = trim_chars(&cs);
    match parse_unsigned_chars(&t, 10, 255) {
        Some(v) => Some(v as u8),
        None => None,
    }
}

impl QuatLogic {
    /// An empty trace of at most 24 samples, sampling, no breakpoints.
    pub fn new() -> (l: QuatLogic)
        ensures
            l.history@.len() == 0,
            l.max_samples == 24,
            l.clock_cycle == 0,
            l.break_pc@.len() == 0,
            l.break_data@.len() == 0,
            !l.breakpoint_hit,
            l.is_sampling,
    {
        QuatLogic {
            history: VecDeque::new(),
            max_samples: 24,
            clock_cycle: 0,
            break_pc: String::new(),
            break_data: String::new(),
            breakpoint_hit: false,
            is_sampling: true,
            status_msg: String::from_str("QuatLogic spreman. Magistrala pod nadzorom."),
        }
    }

    /// Records one cycle: counts it, checks both breakpoints (either one
    /// stops sampling, the data one reported last), and appends the sample,
    /// dropping the oldest one first when the trace is full.  Does nothing
    /// while sampling is paused.
    pub fn sample_bus(&mut self, kernel: &QuatKernel, rw: bool)
        requires
            old(self).is_sampling ==> old(self).clock_cycle < usize::MAX,
        ensures
            !old(self).is_sampling ==> *final(self) == *old(self),
            old(self).is_sampling ==> {
                let cycle = (old(self).clock_cycle + 1) as usize;
                let pc = kernel.pc;
                let data = kernel.ram@[pc as int].0;
                let pc_hit = breakpoint_value(old(self).break_pc@) == Some(pc as nat);
                let data_hit = breakpoint_value(old(self).break_data@) == Some(data as nat);
                let sample = BusSample {
                    cycle,
                    clk: cycle % 2 == 0,
                    rw,
                    pc_addr: pc,
                    data_bus: data,
                    reg_a: kernel.reg_a.0,
                    reg_b: kernel.reg_b.0,
                };
                let kept = if old(self).history@.len() >= old(self).max_samples && old(
                    self,
                ).history@.len() > 0 {
                    old(self).history@.drop_first()
                } else {
                    old(self).history@
                };
                &&& final(self).clock_cycle == cycle
                &&& final(self).history@ == kept.push(sample)
                &&& final(self).breakpoint_hit == (old(self).breakpoint_hit || pc_hit || data_hit)
                &&& final(self).is_sampling == !(pc_hit || data_hit)
                &&& final(self).status_msg@ == (if data_hit {
                    data_trap_message(data)
                } else if pc_hit {
                    pc_trap_message(pc)
                } else {
                    old(self).status_msg@
                })
                &&& final(self).max_samples == old(self).max_samples
                &&& final(self).break_pc == old(self).break_pc
                &&& final(self).break_data == old(self).break_data
            },
    {
        if !self.is_sampling {
            return;
        }
        self.clock_cycle += 1;
        let pc = kernel.pc;
        let data = kernel.ram[pc as usize].0;
        if let Some(target_pc) = breakpoint_of(&self.break_pc) {
            if pc == target_pc {
                self.breakpoint_hit = true;
                self.is_sampling = false;
                let mut m = String::from_str("🎯 BREAKPOINT TRAP! PC dostigao 0x");
                push_radix(&mut m, pc as u64, 16, 2);
                self.status_msg = m;
            }
        }
        if let Some(target_data) = breakpoint_of(&self.break_data) {
            if data == target_data {
                self.breakpoint_hit = true;
                self.is_sampling = false;
                let mut m = String::from_str("🎯 BREAKPOINT TRAP! Data Bus ima vrednost ");
                push_dec(&mut m, data as u64);
                m.append(" (0x");
                push_radix(&mut m, data as u64, 16, 2);
                m.append(")");
                self.status_msg = m;
            }
        }
        let sample = BusSample {
            cycle: self.clock_cycle,
            clk: self.clock_cycle % 2 == 0,
            rw,
            pc_addr: pc,
            data_bus: data,
            reg_a: kernel.reg_a.0,
            reg_b: kernel.reg_b.0,
        };
        if self.history.len() >= self.max_samples {
            self.history.pop_front();
        }
        self.history.push_back(sample);
    }

    /// Empties the trace, zeroes the cycle counter, clears the breakpoint
    /// flag and resumes sampling.
    pub fn reset_trace(&mut self)
        ensures
            final(self).history@.len() == 0,
            final(self).clock_cycle == 0,
            !final(self).breakpoint_hit,
            final(self).is_sampling,
            final(self).max_samples == old(self).max_samples,
            final(self).break_pc == old(self).break_pc,
            final(self).break_data == old(self).break_data,
            final(self).status_msg@ == "Sistemski tragovi (Traces) resetovani."@,
    {
        self.history.clear();
        self.clock_cycle = 0;
        self.breakpoint_hit = false;
        self.is_sampling = true;
        self.status_msg = String::from_str("Sistemski tragovi (Traces) resetovani.");
    }
}

} // verus!
