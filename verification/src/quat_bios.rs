//! The boot firmware: a power-on self test in timed steps (CPU check, a
//! RAM sweep, the 4^4 logo drawn in the frame buffer, mounting the file
//! system).  The caller keeps the clock and the progress bar and calls
//! `update` once per boot tick (about every 120 ms).

use vstd::prelude::*;
use crate::kernel::{QuatByte, QuatKernel, texts};

verus! {

/// The stages of the boot.
#[derive(Clone, Copy, Debug, PartialEq, Eq, Structural)]
pub enum BootStage {
    PowerOff,
    PostCpuCheck,
    RamDiagnostic,
    CrtSplashAnimation,
    MountQuatFS,
    BootComplete,
}

/// The firmware.
pub struct QuatBIOS {
    pub stage: BootStage,
    pub log: Vec<String>,
    pub frame_step: usize,
    pub auto_boot: bool,
}

/// The pixels of the 4^4 logo, in drawing order (column, row).
pub open spec fn logo() -> Seq<(usize, usize)> {
    seq![
        (3usize, 4usize),
        (3, 5),
        (3, 6),
        (3, 7),
        (3, 8),
        (4, 7),
        (5, 7),
        (6, 7),
        (6, 4),
        (6, 5),
        (6, 6),
        (6, 7),
        (6, 8),
        (6, 9),
        (9, 3),
        (9, 4),
        (9, 5),
        (10, 5),
        (11, 3),
        (11, 4),
    ]
}

/// The status line of a stage.
pub open spec fn stage_text(s: BootStage) -> Seq<char> {
    match s {
        BootStage::PowerOff => "Isključen (Power Off)"@,
        BootStage::PostCpuCheck => "POST: Provera CPU-a..."@,
        BootStage::RamDiagnostic => "POST: Testiranje RAM memorije..."@,
        BootStage::CrtSplashAnimation => "GPU: Rendering $4^4$ Logotipa..."@,
        BootStage::MountQuatFS => "STORAGE: Montiranje QuatFS-a..."@,
        BootStage::BootComplete => "Sistem je spreman za rad!"@,
    }
}

/// The kernel's registers and memory other than RAM are untouched.
pub open spec fn ram_only(k0: QuatKernel, k1: QuatKernel) -> bool {
    &&& k1.vram == k0.vram
    &&& k1.reg_a == k0.reg_a
    &&& k1.reg_b == k0.reg_b
    &&& k1.pc == k0.pc
    &&& k1.is_running == k0.is_running
    &&& k1.logs == k0.logs
}

impl QuatBIOS {
    /// Powered off, auto-boot on, waiting for power.
    pub fn new() -> (b: QuatBIOS)
        ensures
            b.stage == BootStage::PowerOff,
            texts(b.log@) == seq!["SYSTEM READY FOR POWER-ON."@],
            b.frame_step == 0,
            b.auto_boot,
    {
        let mut log: Vec<String> = Vec::new();
        log.push(String::from_str("SYSTEM READY FOR POWER-ON."));
        assert(texts(log@) =~= seq!["SYSTEM READY FOR POWER-ON."@]);
        QuatBIOS { stage: BootStage::PowerOff, log, frame_step: 0, auto_boot: true }
    }

    /// Powers on: the self test starts with a fresh log and the kernel's
    /// registers reset and stopped.
    pub fn power_on(&mut self, kernel: &mut QuatKernel)
        ensures
            final(self).stage == BootStage::PostCpuCheck,
            final(self).frame_step == 0,
            texts(final(self).log@) == seq![
                "⚡ QUAT-BIOS v1.0 (c) 2026 QuatOS Inc."@,
                "----------------------------------------"@,
            ],
            final(self).auto_boot == old(self).auto_boot,
            final(kernel).pc == 0,
            final(kernel).reg_a.0 == 0,
            final(kernel).reg_b.0 == 0,
            !final(kernel).is_running,
            final(kernel).ram == old(kernel).ram,
            final(kernel).vram == old(kernel).vram,
            final(kernel).logs == old(kernel).logs,
    {
        self.stage = BootStage::PostCpuCheck;
        self.frame_step = 0;
        self.log.clear();
        self.log.push(String::from_str("⚡ QUAT-BIOS v1.0 (c) 2026 QuatOS Inc."));
        self.log.push(String::from_str("----------------------------------------"));
        assert(texts(self.log@) =~= seq![
            "⚡ QUAT-BIOS v1.0 (c) 2026 QuatOS Inc."@,
            "----------------------------------------"@,
        ]);
        kernel.pc = 0;
        kernel.reg_a = QuatByte(0);
        kernel.reg_b = QuatByte(0);
        kernel.is_running = false;
    }

    /// Powers off: the log says so and RAM is cleared.
    pub fn power_off(&mut self, kernel: &mut QuatKernel)
        ensures
            final(self).stage == BootStage::PowerOff,
            texts(final(self).log@) == seq!["SYSTEM SHUTDOWN."@],
            final(self).frame_step == old(self).frame_step,
            final(self).auto_boot == old(self).auto_boot,
            forall|i: int| 0 <= i < 256 ==> #[trigger] final(kernel).ram@[i] == QuatByte(0),
            ram_only(*old(kernel), *final(kernel)),
    {
        self.stage = BootStage::PowerOff;
        self.log.clear();
        self.log.push(String::from_str("SYSTEM SHUTDOWN."));
        assert(texts(self.log@) =~= seq!["SYSTEM SHUTDOWN."@]);
        let mut i: usize = 0;
        while i < 256
            invariant
                i <= 256,
                forall|k: int| 0 <= k < i ==> #[trigger] kernel.ram@[k] == QuatByte(0),
                ram_only(*old(kernel), *kernel),
            decreases 256 - i,
        {
            kernel.ram[i] = QuatByte(0);
            i = i + 1;
        }
    }

    /// The status line of the current stage.
    pub fn status_text(&self) -> (s: &'static str)
        ensures
            s@ == stage_text(self.stage),
    {
        match self.stage {
            BootStage::PowerOff => "Isključen (Power Off)",
            BootStage::PostCpuCheck => "POST: Provera CPU-a...",
            BootStage::RamDiagnostic => "POST: Testiranje RAM memorije...",
            BootStage::CrtSplashAnimation => "GPU: Rendering $4^4$ Logotipa...",
            BootStage::MountQuatFS => "STORAGE: Montiranje QuatFS-a...",
            BootStage::BootComplete => "Sistem je spreman za rad!",
        }
    }

    /// One boot tick.  The CPU check logs and moves to the RAM test; the
    /// RAM test fills one 16-byte row with 255 per tick and, after 16 rows,
    /// clears RAM and moves on; the splash draws one logo pixel (255) per
    /// tick and, after the 20 pixels, moves on; mounting logs and
    /// completes the boot.  Powered off or booted, nothing happens.
    pub fn update(&mut self, kernel: &mut QuatKernel)
        ensures
            ram_only(*old(kernel), *final(kernel)),
            final(self).auto_boot == old(self).auto_boot,
            ({
                let log0 = texts(old(self).log@);
                let fs = old(self).frame_step;
                match old(self).stage {
                    BootStage::PostCpuCheck => {
                        &&& final(self).stage == BootStage::RamDiagnostic
                        &&& texts(final(self).log@) == log0.push(
                            "[ OK ] CPU Core check: 4^4 Quat-Architecture Active"@,
                        ).push("[ OK ] Registers REG_A & REG_B initialized"@)
                        &&& final(self).frame_step == fs
                        &&& final(kernel).ram == old(kernel).ram
                    },
                    BootStage::RamDiagnostic => if fs < 16 {
                        &&& final(self).stage == BootStage::RamDiagnostic
                        &&& final(self).frame_step == fs + 1
                        &&& final(self).log == old(self).log
                        &&& forall|i: int|
                            0 <= i < 256 ==> #[trigger] final(kernel).ram@[i] == (if fs * 16 <= i < fs * 16 + 16 {
                                QuatByte(255)
                            } else {
                                old(kernel).ram@[i]
                            })
                    } else {
                        &&& final(self).stage == BootStage::CrtSplashAnimation
                        &&& final(self).frame_step == 0
                        &&& texts(final(self).log@) == log0.push(
                            "[ OK ] RAM Diagnostic: 256/256 QuatBytes Verified"@,
                        )
                        &&& forall|i: int| 0 <= i < 256 ==> #[trigger] final(kernel).ram@[i] == QuatByte(0)
                    },
                    BootStage::CrtSplashAnimation => if fs < 20 {
                        let p = logo()[fs as int];
                        &&& final(self).stage == BootStage::CrtSplashAnimation
                        &&& final(self).frame_step == fs + 1
                        &&& final(self).log == old(self).log
                        &&& final(kernel).ram@ == old(kernel).ram@.update(p.1 * 16 + p.0, QuatByte(255))
                    } else {
                        &&& final(self).stage == BootStage::MountQuatFS
                        &&& final(self).frame_step == fs
                        &&& texts(final(self).log@) == log0.push("[ OK ] CRT Framebuffer VRAM Initialized"@).push(
                            "[ OK ] QuatDSP Audio Core: Online"@,
                        )
                        &&& final(kernel).ram == old(kernel).ram
                    },
                    BootStage::MountQuatFS => {
                        &&& final(self).stage == BootStage::BootComplete
                        &&& final(self).frame_step == fs
                        &&& texts(final(self).log@) == log0.push(
                            "[ OK ] Mounting QuatFS Root Partition (0x20..0xFF)..."@,
                        ).push("✨ QuatOS Kernel Booted Successfully!"@)
                        &&& final(kernel).ram == old(kernel).ram
                    },
                    _ => *final(self) == *old(self) && final(kernel).ram == old(kernel).ram,
                }
            }),
    {
        let ghost log0 = texts(self.log@);
        match self.stage {
            BootStage::PostCpuCheck => {
                self.log.push(String::from_str("[ OK ] CPU Core check: 4^4 Quat-Architecture Active"));
                self.log.push(String::from_str("[ OK ] Registers REG_A & REG_B initialized"));
                assert(texts(self.log@) =~= log0.push("[ OK ] CPU Core check: 4^4 Quat-Architecture Active"@).push(
                    "[ OK ] Registers REG_A & REG_B initialized"@,
                ));
                self.stage = BootStage::RamDiagnostic;
            },
            BootStage::RamDiagnostic => {
                if self.frame_step < 16 {
                    let start_addr = self.frame_step * 16;
                    let mut i: usize = 0;
                    while i < 16
                        invariant
                            i <= 16,
                            start_addr == old(self).frame_step * 16,
                            old(self).frame_step < 16,
                            forall|k: int|
                                0 <= k < 256 ==> #[trigger] kernel.ram@[k] == (if start_addr <= k < start_addr + i {
                                    QuatByte(255)
                                } else {
                                    old(kernel).ram@[k]
                                }),
                            ram_only(*old(kernel), *kernel),
                        decreases 16 - i,
                    {
                        kernel.ram[start_addr + i] = QuatByte(255);
                        i = i + 1;
                    }
                    self.frame_step += 1;
                } else {
                    let mut i: usize = 0;
                    while i < 256
                        invariant
                            i <= 256,
                            forall|k: int| 0 <= k < i ==> #[trigger] kernel.ram@[k] == QuatByte(0),
                            ram_only(*old(kernel), *kernel),
                        decreases 256 - i,
                    {
                        kernel.ram[i] = QuatByte(0);
                        i = i + 1;
                    }
                    self.log.push(String::from_str("[ OK ] RAM Diagnostic: 256/256 QuatBytes Verified"));
                    assert(texts(self.log@) =~= log0.push("[ OK ] RAM Diagnostic: 256/256 QuatBytes Verified"@));
                    self.frame_step = 0;
                    self.stage = BootStage::CrtSplashAnimation;
                }
            },
            BootStage::CrtSplashAnimation => {
                let logo_pixels: [(usize, usize); 20] = [
                    (3, 4),
                    (3, 5),
                    (3, 6),
                    (3, 7),
                    (3, 8),
                    (4, 7),
                    (5, 7),
                    (6, 7),
                    (6, 4),
                    (6, 5),
                    (6, 6),
                    (6, 7),
                    (6, 8),
                    (6, 9),
                    (9, 3),
                    (9, 4),
                    (9, 5),
                    (10, 5),
                    (11, 3),
                    (11, 4),
                ];
                assert(logo_pixels@ =~= logo());
                if self.frame_step < 20 {
                    let (x, y) = logo_pixels[self.frame_step];
                    let addr = y * 16 + x;
                    kernel.ram[addr] = QuatByte(255);
                    self.frame_step += 1;
                } else {
                    self.log.push(String::from_str("[ OK ] CRT Framebuffer VRAM Initialized"));
                    self.log.push(String::from_str("[ OK ] QuatDSP Audio Core: Online"));
                    assert(texts(self.log@) =~= log0.push("[ OK ] CRT Framebuffer VRAM Initialized"@).push(
                        "[ OK ] QuatDSP Audio Core: Online"@,
                    ));
                    self.stage = BootStage::MountQuatFS;
                }
            },
            BootStage::MountQuatFS => {
                self.log.push(String::from_str("[ OK ] Mounting QuatFS Root Partition (0x20..0xFF)..."));
                self.log.push(String::from_str("✨ QuatOS Kernel Booted Successfully!"));
                assert(texts(self.log@) =~= log0.push("[ OK ] Mounting QuatFS Root Partition (0x20..0xFF)..."@).push(
                    "✨ QuatOS Kernel Booted Successfully!"@,
                ));
                self.stage = BootStage::BootComplete;
            },
            _ => {},
        }
    }
}

} // verus!
