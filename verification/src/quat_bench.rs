//! The five-level stress test: each level hammers the ALU, RAM or VRAM and
//! counts the operations it performed.  The caller times the levels (four
//! seconds each), moves to the next one when a level's time is up, and
//! keeps the temperature and speed readings, which are floating point.

use vstd::prelude::*;
use crate::kernel::{QuatByte, QuatKernel, texts};

verus! {

/// The levels of the test.
#[derive(Clone, Copy, Debug, PartialEq, Eq, Structural)]
pub enum BenchLevel {
    Idle,
    Level1Warmup,
    Level2RamBus,
    Level3VramBurn,
    Level4AluMatrix,
    Level5MaxTorture,
    Finished,
}

/// The test's counters and log.
pub struct QuatBENCH {
    pub current_level: BenchLevel,
    pub total_operations: u64,
    pub level_operations: u64,
    pub ram_errors: u64,
    pub log_messages: Vec<String>,
}

/// The line logged on entering a level (none for idle).
pub open spec fn level_message(l: BenchLevel) -> Seq<char> {
    match l {
        BenchLevel::Level1Warmup => "🔥 NIVO 1/5: Warm-up (ALU Basic Register Spin)"@,
        BenchLevel::Level2RamBus => "🔥 NIVO 2/5: RAM Bus Integrity Sweep (256 Bajtova)"@,
        BenchLevel::Level3VramBurn => "🔥 NIVO 3/5: VRAM Video Matrix Stress Test"@,
        BenchLevel::Level4AluMatrix => "🔥 NIVO 4/5: ALU Heavy Logic Operations (NAND/XOR/ADD)"@,
        BenchLevel::Level5MaxTorture => "⚡ NIVO 5/5: MAXIMUM OVERCLOCK TORTURE (Sve jedinice na 100%)"@,
        BenchLevel::Finished => "✅ TEST ZAVRŠEN! Sistem je preživeo sve nivoe opterećenja."@,
        BenchLevel::Idle => Seq::empty(),
    }
}

/// The level after `l` once its time is up.
pub open spec fn following_level(l: BenchLevel) -> BenchLevel {
    match l {
        BenchLevel::Level1Warmup => BenchLevel::Level2RamBus,
        BenchLevel::Level2RamBus => BenchLevel::Level3VramBurn,
        BenchLevel::Level3VramBurn => BenchLevel::Level4AluMatrix,
        BenchLevel::Level4AluMatrix => BenchLevel::Level5MaxTorture,
        BenchLevel::Level5MaxTorture => BenchLevel::Finished,
        _ => l,
    }
}

/// The operations a round of level `l` counts.
pub open spec fn level_ops(l: BenchLevel) -> u64 {
    match l {
        BenchLevel::Level1Warmup => 20_000,
        BenchLevel::Level2RamBus => 512,
        BenchLevel::Level3VramBurn => 1_000,
        BenchLevel::Level4AluMatrix => 100_000,
        BenchLevel::Level5MaxTorture => 300_000,
        _ => 0,
    }
}

/// A VRAM byte after the burn: rotated left by one bit, plus 0x3C.
pub open spec fn burned(v: u8) -> u8 {
    vstd::wrapping::u8_specs::wrapping_add((v << 1u8) | (v >> 7u8), 0x3C)
}

/// The counters stay within range for a round of the current level.
pub open spec fn round_in_range(b: QuatBENCH) -> bool {
    b.total_operations + level_ops(b.current_level) <= u64::MAX && b.level_operations + level_ops(b.current_level)
        <= u64::MAX
}

fn rotl1(v: u8) -> (r: u8)
    ensures
        r == (v << 1u8) | (v >> 7u8),
{
    (v << 1) | (v >> 7)
}

fn rotr2(v: u8) -> (r: u8)
    ensures
        r == (v >> 2u8) | (v << 6u8),
{
    (v >> 2) | (v << 6)
}

impl QuatBENCH {
    /// Idle, counters at zero, ready.
    pub fn new() -> (b: QuatBENCH)
        ensures
            b.current_level == BenchLevel::Idle,
            b.total_operations == 0,
            b.level_operations == 0,
            b.ram_errors == 0,
            texts(b.log_messages@) == seq!["QuatBENCH 5-Level Suite spreman za pokretanje."@],
    {
        let mut log: Vec<String> = Vec::new();
        log.push(String::from_str("QuatBENCH 5-Level Suite spreman za pokretanje."));
        assert(texts(log@) =~= seq!["QuatBENCH 5-Level Suite spreman za pokretanje."@]);
        QuatBENCH {
            current_level: BenchLevel::Idle,
            total_operations: 0,
            level_operations: 0,
            ram_errors: 0,
            log_messages: log,
        }
    }

    /// Enters `next_level`: its counter restarts and its line is logged.
    pub fn advance_to_level(&mut self, next_level: BenchLevel)
        ensures
            final(self).current_level == next_level,
            final(self).level_operations == 0,
            final(self).total_operations == old(self).total_operations,
            final(self).ram_errors == old(self).ram_errors,
            texts(final(self).log_messages@) == (if next_level == BenchLevel::Idle {
                texts(old(self).log_messages@)
            } else {
                texts(old(self).log_messages@).push(level_message(next_level))
            }),
    {
        self.current_level = next_level;
        self.level_operations = 0;
        let msg: &str = match next_level {
            BenchLevel::Level1Warmup => "🔥 NIVO 1/5: Warm-up (ALU Basic Register Spin)",
            BenchLevel::Level2RamBus => "🔥 NIVO 2/5: RAM Bus Integrity Sweep (256 Bajtova)",
            BenchLevel::Level3VramBurn => "🔥 NIVO 3/5: VRAM Video Matrix Stress Test",
            BenchLevel::Level4AluMatrix => "🔥 NIVO 4/5: ALU Heavy Logic Operations (NAND/XOR/ADD)",
            BenchLevel::Level5MaxTorture => "⚡ NIVO 5/5: MAXIMUM OVERCLOCK TORTURE (Sve jedinice na 100%)",
            BenchLevel::Finished => "✅ TEST ZAVRŠEN! Sistem je preživeo sve nivoe opterećenja.",
            BenchLevel::Idle => "",
        };
        if next_level != BenchLevel::Idle {
            let ghost before = texts(self.log_messages@);
            self.log_messages.push(String::from_str(msg));
            assert(texts(self.log_messages@) =~= before.push(level_message(next_level)));
        }
    }

    /// Starts the full test at level 1 with fresh counters and log.
    pub fn start_full_test(&mut self)
        ensures
            final(self).current_level == BenchLevel::Level1Warmup,
            final(self).total_operations == 0,
            final(self).level_operations == 0,
            final(self).ram_errors == 0,
            texts(final(self).log_messages@) == seq![
                "🚀 POKRETANJE FULL STRESS TESTA (5 NIVOA)..."@,
                level_message(BenchLevel::Level1Warmup),
            ],
    {
        self.total_operations = 0;
        self.ram_errors = 0;
        self.log_messages.clear();
        self.log_messages.push(String::from_str("🚀 POKRETANJE FULL STRESS TESTA (5 NIVOA)..."));
        assert(texts(self.log_messages@) =~= seq!["🚀 POKRETANJE FULL STRESS TESTA (5 NIVOA)..."@]);
        self.advance_to_level(BenchLevel::Level1Warmup);
        assert(texts(self.log_messages@) =~= seq![
            "🚀 POKRETANJE FULL STRESS TESTA (5 NIVOA)..."@,
            level_message(BenchLevel::Level1Warmup),
        ]);
    }

    /// The current level's time is up: move to the next (after level 5 the
    /// test is finished).  Idle or finished, nothing happens.
    pub fn next_level(&mut self)
        ensures
            old(self).current_level == BenchLevel::Idle || old(self).current_level == BenchLevel::Finished
                ==> *final(self) == *old(self),
            !(old(self).current_level == BenchLevel::Idle || old(self).current_level == BenchLevel::Finished) ==> {
                &&& final(self).current_level == following_level(old(self).current_level)
                &&& final(self).level_operations == 0
                &&& final(self).total_operations == old(self).total_operations
                &&& texts(final(self).log_messages@) == texts(old(self).log_messages@).push(
                    level_message(following_level(old(self).current_level)),
                )
            },
    {
        match self.current_level {
            BenchLevel::Level1Warmup => self.advance_to_level(BenchLevel::Level2RamBus),
            BenchLevel::Level2RamBus => self.advance_to_level(BenchLevel::Level3VramBurn),
            BenchLevel::Level3VramBurn => self.advance_to_level(BenchLevel::Level4AluMatrix),
            BenchLevel::Level4AluMatrix => self.advance_to_level(BenchLevel::Level5MaxTorture),
            BenchLevel::Level5MaxTorture => self.advance_to_level(BenchLevel::Finished),
            _ => {},
        }
    }

    /// Stops the test by hand.
    pub fn stop(&mut self)
        ensures
            final(self).current_level == BenchLevel::Idle,
            texts(final(self).log_messages@) == texts(old(self).log_messages@).push("⏹ Test ručno prekinut."@),
            final(self).total_operations == old(self).total_operations,
            final(self).level_operations == old(self).level_operations,
    {
        self.current_level = BenchLevel::Idle;
        let ghost before = texts(self.log_messages@);
        self.log_messages.push(String::from_str("⏹ Test ručno prekinut."));
        assert(texts(self.log_messages@) =~= before.push("⏹ Test ručno prekinut."@));
    }

    /// One round of the current level: level 2 writes the low byte of the
    /// operation count to all of RAM, level 3 burns VRAM 0-63, level 5
    /// fills RAM and VRAM 0-63 with 0xFF; levels 1 and 4 spin the ALU.  The
    /// round's operations are counted.  Idle or finished, nothing happens.
    pub fn run_level(&mut self, kernel: &mut QuatKernel)
        requires
            round_in_range(*old(self)),
        ensures
            final(self).current_level == old(self).current_level,
            final(self).total_operations == old(self).total_operations + level_ops(old(self).current_level),
            final(self).level_operations == old(self).level_operations + level_ops(old(self).current_level),
            final(self).ram_errors == old(self).ram_errors,
            final(self).log_messages == old(self).log_messages,
            final(kernel).reg_a == old(kernel).reg_a,
            final(kernel).reg_b == old(kernel).reg_b,
            final(kernel).is_running == old(kernel).is_running,
            final(kernel).pc == old(kernel).pc,
            final(kernel).logs == old(kernel).logs,
            old(self).current_level == BenchLevel::Level2RamBus ==> {
                &&& forall|i: int|
                    0 <= i < 256 ==> #[trigger] final(kernel).ram@[i] == QuatByte(
                        (old(self).total_operations % 256) as u8,
                    )
                &&& final(kernel).vram == old(kernel).vram
            },
            old(self).current_level == BenchLevel::Level3VramBurn ==> {
                &&& forall|i: int|
                    0 <= i < 256 ==> #[trigger] final(kernel).vram@[i] == (if i < 64 {
                        QuatByte(burned(old(kernel).vram@[i].0))
                    } else {
                        old(kernel).vram@[i]
                    })
                &&& final(kernel).ram == old(kernel).ram
            },
            old(self).current_level == BenchLevel::Level5MaxTorture ==> {
                &&& forall|i: int| 0 <= i < 256 ==> #[trigger] final(kernel).ram@[i] == QuatByte(0xFF)
                &&& forall|i: int|
                    0 <= i < 256 ==> #[trigger] final(kernel).vram@[i] == (if i < 64 {
                        QuatByte(0xFF)
                    } else {
                        old(kernel).vram@[i]
                    })
            },
            !(old(self).current_level == BenchLevel::Level2RamBus || old(self).current_level
                == BenchLevel::Level3VramBurn || old(self).current_level == BenchLevel::Level5MaxTorture)
                ==> final(kernel).ram == old(kernel).ram && final(kernel).vram == old(kernel).vram,
    {
        match self.current_level {
            BenchLevel::Level1Warmup => {
                let mut reg: u8 = 0;
                let mut n: u32 = 0;
                while n < 10_000
                    invariant
                        n <= 10_000,
                    decreases 10_000 - n,
                {
                    reg = reg.wrapping_add(1);
                    reg = reg ^ 0x55;
                    n = n + 1;
                }
            },
            BenchLevel::Level2RamBus => {
                let pattern = #[verifier::truncate] ((self.total_operations & 0xFF) as u8);
                let t = self.total_operations;
                assert(pattern == (t % 256) as u8) by (bit_vector)
                    requires
                        pattern == #[verifier::truncate] ((t & 0xFF) as u8),
                ;
                let mut addr: usize = 0;
                while addr < 256
                    invariant
                        addr <= 256,
                        pattern == (old(self).total_operations % 256) as u8,
                        forall|i: int| 0 <= i < addr ==> #[trigger] kernel.ram@[i] == QuatByte(pattern),
                        kernel.vram == old(kernel).vram,
                        kernel.reg_a == old(kernel).reg_a,
                        kernel.reg_b == old(kernel).reg_b,
                        kernel.is_running == old(kernel).is_running,
                        kernel.pc == old(kernel).pc,
                        kernel.logs == old(kernel).logs,
                    decreases 256 - addr,
                {
                    kernel.ram[addr] = QuatByte(pattern);
                    addr = addr + 1;
                }
            },
            BenchLevel::Level3VramBurn => {
                let mut addr: usize = 0;
                while addr < 64
                    invariant
                        addr <= 64,
                        forall|i: int|
                            0 <= i < 256 ==> #[trigger] kernel.vram@[i] == (if i < addr {
                                QuatByte(burned(old(kernel).vram@[i].0))
                            } else {
                                old(kernel).vram@[i]
                            }),
                        kernel.ram == old(kernel).ram,
                        kernel.reg_a == old(kernel).reg_a,
                        kernel.reg_b == old(kernel).reg_b,
                        kernel.is_running == old(kernel).is_running,
                        kernel.pc == old(kernel).pc,
                        kernel.logs == old(kernel).logs,
                    decreases 64 - addr,
                {
                    let v = kernel.vram[addr].0;
                    kernel.vram[addr] = QuatByte(rotl1(v).wrapping_add(0x3C));
                    addr = addr + 1;
                }
            },
            BenchLevel::Level4AluMatrix => {
                let mut a: u8 = 0xA5;
                let mut b: u8 = 0x5A;
                let mut n: u32 = 0;
                while n < 25_000
                    invariant
                        n <= 25_000,
                    decreases 25_000 - n,
                {
                    a = !(a ^ b);
                    b = b.wrapping_add(a);
                    a = rotr2(a);
                    n = n + 1;
                }
            },
            BenchLevel::Level5MaxTorture => {
                let mut dummy: u8 = 0xFF;
                let mut i: u32 = 0;
                while i < 100_000
                    invariant
                        i <= 100_000,
                    decreases 100_000 - i,
                {
                    dummy = dummy.wrapping_sub(#[verifier::truncate] ((i & 0xFF) as u8)) ^ 0xAA;
                    i = i + 1;
                }
                let mut addr: usize = 0;
                while addr < 256
                    invariant
                        addr <= 256,
                        forall|k: int| 0 <= k < addr ==> #[trigger] kernel.ram@[k] == QuatByte(0xFF),
                        kernel.vram == old(kernel).vram,
                        kernel.reg_a == old(kernel).reg_a,
                        kernel.reg_b == old(kernel).reg_b,
                        kernel.is_running == old(kernel).is_running,
                        kernel.pc == old(kernel).pc,
                        kernel.logs == old(kernel).logs,
                    decreases 256 - addr,
                {
                    kernel.ram[addr] = QuatByte(0xFF);
                    addr = addr + 1;
                }
                let mut addr: usize = 0;
                while addr < 64
                    invariant
                        addr <= 64,
                        forall|k: int| 0 <= k < 256 ==> #[trigger] kernel.ram@[k] == QuatByte(0xFF),
                        forall|k: int|
                            0 <= k < 256 ==> #[trigger] kernel.vram@[k] == (if k < addr {
                                QuatByte(0xFF)
                            } else {
                                old(kernel).vram@[k]
                            }),
                        kernel.reg_a == old(kernel).reg_a,
                        kernel.reg_b == old(kernel).reg_b,
                        kernel.is_running == old(kernel).is_running,
                        kernel.pc == old(kernel).pc,
                        kernel.logs == old(kernel).logs,
                    decreases 64 - addr,
                {
                    kernel.vram[addr] = QuatByte(0xFF);
                    addr = addr + 1;
                }
            },
            _ => {},
        }
        let ops: u64 = match self.current_level {
            BenchLevel::Level1Warmup => 20_000,
            BenchLevel::Level2RamBus => 512,
            BenchLevel::Level3VramBurn => 1_000,
            BenchLevel::Level4AluMatrix => 100_000,
            BenchLevel::Level5MaxTorture => 300_000,
            _ => 0,
        };
        self.level_operations = self.level_operations + ops;
        self.total_operations = self.total_operations + ops;
    }
}

} // verus!
