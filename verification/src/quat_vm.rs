//! The bytecode machine that runs what the assembler emits, and the
//! editor state that feeds it.

use vstd::prelude::*;
use crate::assembler::{assemble, byte_values, Assembler};
use crate::kernel::{bounded_push, texts, QuatByte, QuatKernel};
use crate::text::{dec_str, push_dec};

verus! {

/// The parts of the kernel that one machine step reads and writes.
pub struct VmState {
    pub ram: Seq<u8>,
    pub a: u8,
    pub b: u8,
    pub pc: u8,
    pub running: bool,
}

/// The machine state of a kernel.
pub open spec fn vm_state(k: QuatKernel) -> VmState {
    VmState { ram: byte_values(k.ram@), a: k.reg_a.0, b: k.reg_b.0, pc: k.pc, running: k.is_running }
}

/// A step can be taken without the program counter running past 255:
/// opcodes 1 and 2 need one operand byte and opcode 7 two.
pub open spec fn vm_step_ok(s: VmState) -> bool {
    s.pc < 255 ==> {
        &&& (s.ram[s.pc as int] == 1 || s.ram[s.pc as int] == 2) ==> s.pc <= 253
        &&& s.ram[s.pc as int] == 7 ==> s.pc <= 252
    }
}

/// `ram` with the pixel `(x, y)` of the 16x16 frame set to 255, when it
/// lies on the frame.
pub open spec fn plot(ram: Seq<u8>, x: u8, y: u8) -> Seq<u8> {
    if x < 16 && y < 16 {
        ram.update(y * 16 + x, 255u8)
    } else {
        ram
    }
}

/// One machine step: fetch the opcode at `pc` and run it.
/// 0 NOP, 1 SET A, 2 SET B, 3 ADD, 4 SUB, 5 JMP, 6 clear RAM,
/// 7 DRAW x y (operands), 8 DRAW A B (registers); other opcodes do
/// nothing.  From address 255 on the machine stops instead.
pub open spec fn vm_step(s: VmState) -> VmState {
    if s.pc >= 255 {
        VmState { running: false, ..s }
    } else {
        let op = s.ram[s.pc as int];
        let p1 = (s.pc + 1) as u8;
        if op == 1 {
            VmState { a: s.ram[p1 as int], pc: (p1 + 1) as u8, ..s }
        } else if op == 2 {
            VmState { b: s.ram[p1 as int], pc: (p1 + 1) as u8, ..s }
        } else if op == 3 {
            VmState { a: ((s.a + s.b) % 256) as u8, pc: p1, ..s }
        } else if op == 4 {
            VmState { a: ((s.a - s.b + 256) % 256) as u8, pc: p1, ..s }
        } else if op == 5 {
            VmState { pc: s.ram[p1 as int], ..s }
        } else if op == 6 {
            VmState { ram: Seq::new(256, |i: int| 0u8), pc: p1, ..s }
        } else if op == 7 {
            VmState {
                ram: plot(s.ram, s.ram[p1 as int], s.ram[p1 + 1]),
                pc: (p1 + 2) as u8,
                ..s
            }
        } else if op == 8 {
            VmState { ram: plot(s.ram, s.a, s.b), pc: p1, ..s }
        } else {
            VmState { pc: p1, ..s }
        }
    }
}

/// The log line written after loading `n` bytes of bytecode.
pub open spec fn loaded_message(n: nat) -> Seq<char> {
    "Kompajlirano "@ + dec_str(n) + " QuatBajtova u RAM!"@
}

/// The code editor of the machine and the error of its last compilation.
pub struct QuatVM {
    pub code_input: String,
    pub compile_err: Option<String>,
}

/// The sample program the editor starts with: two `SET`s and an `ADD`.
pub open spec fn vm_sample_code() -> Seq<char> {
    "// Primer QuatOS Asemblerskog Koda\nSET A, 12\nSET B, 30\nADD\n// Rezultat u Reg A će biti 42 ([0][2][2][2] u kvatima)"@
}

impl QuatVM {
    /// The editor with its sample program and no error.
    pub fn new() -> (vm: QuatVM)
        ensures
            vm.code_input@ == vm_sample_code(),
            vm.compile_err is None,
    {
        let sample_code = "// Primer QuatOS Asemblerskog Koda\nSET A, 12\nSET B, 30\nADD\n// Rezultat u Reg A će biti 42 ([0][2][2][2] u kvatima)";
        QuatVM { code_input: String::from_str(sample_code), compile_err: None }
    }

    /// Compiles the editor's code.  On success RAM is cleared, the bytecode
    /// is written from address 0 (at most 256 bytes), `pc` is reset and
    /// the load is logged; on failure the failure message is kept and the
    /// kernel is left alone.
    pub fn compile_and_load(&mut self, kernel: &mut QuatKernel)
        ensures
            final(self).code_input == old(self).code_input,
            match assemble(old(self).code_input@) {
                Ok(bytes) => {
                    &&& final(self).compile_err is None
                    &&& final(kernel).pc == 0
                    &&& forall|i: int|
                        0 <= i < 256 ==> #[trigger] final(kernel).ram@[i].0 == (if i < bytes.len() {
                            bytes[i]
                        } else {
                            0u8
                        })
                    &&& texts(final(kernel).logs@) == bounded_push(
                        texts(old(kernel).logs@),
                        loaded_message(bytes.len()),
                        50,
                    )
                    &&& final(kernel).vram == old(kernel).vram
                    &&& final(kernel).reg_a == old(kernel).reg_a
                    &&& final(kernel).reg_b == old(kernel).reg_b
                    &&& final(kernel).is_running == old(kernel).is_running
                },
                Err(msg) => {
                    &&& final(self).compile_err is Some
                    &&& final(self).compile_err->0@ == msg
                    &&& *final(kernel) == *old(kernel)
                },
            },
    {
        let mut assembler = Assembler::new();
        match assembler.compile(self.code_input.as_str()) {
            Ok(bytecode) => {
                self.compile_err = None;
                kernel.pc = 0;
                let mut i: usize = 0;
                while i < 256
                    invariant
                        i <= 256,
                        forall|j: int| 0 <= j < i ==> #[trigger] kernel.ram@[j].0 == 0,
                        kernel.pc == 0,
                        kernel.logs == old(kernel).logs,
                        kernel.vram == old(kernel).vram,
                        kernel.reg_a == old(kernel).reg_a,
                        kernel.reg_b == old(kernel).reg_b,
                        kernel.is_running == old(kernel).is_running,
                    decreases 256 - i,
                {
                    kernel.ram[i] = QuatByte(0);
                    i = i + 1;
                }
                let mut idx: usize = 0;
                while idx < bytecode.len()
                    invariant
                        idx <= bytecode@.len(),
                        forall|j: int|
                            0 <= j < 256 ==> #[trigger] kernel.ram@[j].0 == (if j < idx && j
                                < bytecode@.len() {
                                bytecode@[j].0
                            } else {
                                0u8
                            }),
                        kernel.pc == 0,
                        kernel.logs == old(kernel).logs,
                        kernel.vram == old(kernel).vram,
                        kernel.reg_a == old(kernel).reg_a,
                        kernel.reg_b == old(kernel).reg_b,
                        kernel.is_running == old(kernel).is_running,
                    decreases bytecode@.len() - idx,
                {
                    if idx < 256 {
                        kernel.ram[idx] = bytecode[idx];
                    }
                    idx = idx + 1;
                }
                let mut msg = String::from_str("Kompajlirano ");
                push_dec(&mut msg, bytecode.len() as u64);
                msg.append(" QuatBajtova u RAM!");
                kernel.log(msg);
            },
            Err(err) => {
                self.compile_err = Some(err);
            },
        }
    }

    /// Runs one machine step on the kernel (see `vm_step`); logs, video
    /// RAM and everything else are left alone.
    pub fn execute_step(kernel: &mut QuatKernel)
        requires
            vm_step_ok(vm_state(*old(kernel))),
        ensures
            vm_state(*final(kernel)) == vm_step(vm_state(*old(kernel))),
            final(kernel).vram == old(kernel).vram,
            final(kernel).logs == old(kernel).logs,
    {
        let ghost s = vm_state(*kernel);
        if kernel.pc as usize >= 255 {
            kernel.is_running = false;
            assert(vm_state(*kernel) =~= vm_step(s));
            return;
        }
        let opcode = kernel.ram[kernel.pc as usize].0;
        kernel.pc += 1;
        match opcode {
            0 => {
                assert(vm_state(*kernel) =~= vm_step(s));
            },
            1 => {
                let val = kernel.ram[kernel.pc as usize].0;
                kernel.reg_a = QuatByte(val);
                kernel.pc += 1;
                assert(vm_state(*kernel) =~= vm_step(s));
            },
            2 => {
                let val = kernel.ram[kernel.pc as usize].0;
                kernel.reg_b = QuatByte(val);
                kernel.pc += 1;
                assert(vm_state(*kernel) =~= vm_step(s));
            },
            3 => {
                kernel.reg_a = QuatByte(kernel.reg_a.0.wrapping_add(kernel.reg_b.0));
                assert(vm_state(*kernel) =~= vm_step(s));
            },
            4 => {
                kernel.reg_a = QuatByte(kernel.reg_a.0.wrapping_sub(kernel.reg_b.0));
                assert(vm_state(*kernel) =~= vm_step(s));
            },
            5 => {
                let addr = kernel.ram[kernel.pc as usize].0;
                kernel.pc = addr;
                assert(vm_state(*kernel) =~= vm_step(s));
            },
            6 => {
                let mut i: usize = 0;
                while i < 256
                    invariant
                        i <= 256,
                        forall|j: int| 0 <= j < i ==> #[trigger] kernel.ram@[j].0 == 0,
                        kernel.pc == s.pc + 1,
                        kernel.reg_a == old(kernel).reg_a,
                        kernel.reg_b == old(kernel).reg_b,
                        kernel.is_running == old(kernel).is_running,
                        kernel.vram == old(kernel).vram,
                        kernel.logs == old(kernel).logs,
                    decreases 256 - i,
                {
                    kernel.ram[i] = QuatByte(0);
                    i = i + 1;
                }
                assert(byte_values(kernel.ram@) =~= Seq::new(256, |i: int| 0u8));
                assert(vm_state(*kernel) =~= vm_step(s));
            },
            7 => {
                let x = kernel.ram[kernel.pc as usize].0 as usize;
                kernel.pc += 1;
                let y = kernel.ram[kernel.pc as usize].0 as usize;
                kernel.pc += 1;
                if x < 16 && y < 16 {
                    let addr = y * 16 + x;
                    kernel.ram[addr] = QuatByte(255);
                }
                assert(byte_values(kernel.ram@) =~= plot(s.ram, x as u8, y as u8));
                assert(vm_state(*kernel) =~= vm_step(s));
            },
            8 => {
                let x = kernel.reg_a.0 as usize;
                let y = kernel.reg_b.0 as usize;
                if x < 16 && y < 16 {
                    let addr = y * 16 + x;
                    kernel.ram[addr] = QuatByte(255);
                }
                assert(byte_values(kernel.ram@) =~= plot(s.ram, x as u8, y as u8));
                assert(vm_state(*kernel) =~= vm_step(s));
            },
            _ => {
                assert(vm_state(*kernel) =~= vm_step(s));
            },
        }
        assert(vm_state(*kernel) =~= vm_step(s));
    }

    /// Runs one machine step as `execute_step` does when the program
    /// counter stays within 255; otherwise nothing changes and the result
    /// is `false`.
    pub fn execute_step_checked(kernel: &mut QuatKernel) -> (ran: bool)
        ensures
            ran <==> vm_step_ok(vm_state(*old(kernel))),
            ran ==> vm_state(*final(kernel)) == vm_step(vm_state(*old(kernel))),
            !ran ==> *final(kernel) == *old(kernel),
            final(kernel).vram == old(kernel).vram,
            final(kernel).logs == old(kernel).logs,
    {
        let pc = kernel.pc;
        if pc < 255 {
            let op = kernel.ram[pc as usize].0;
            assert(vm_state(*kernel).ram[pc as int] == op);
            if ((op == 1 || op == 2) && pc > 253) || (op == 7 && pc > 252) {
                return false;
            }
        }
        Self::execute_step(kernel);
        true
    }
}

/// What each register opcode does, in its own arithmetic: 1 loads A and 2
/// loads B with the byte after the opcode, 3 adds B to A and 4 subtracts
/// B from A (modulo 256), 5 jumps to the address in the byte after it.
/// The other register and RAM are left alone.  (A load needs its operand
/// byte within RAM, so it is stated for opcodes up to address 253.)
pub proof fn law_vm_register_opcodes(s: VmState)
    requires
        s.ram.len() == 256,
        s.pc < 255,
    ensures
        ({
            let t = vm_step(s);
            let op = s.ram[s.pc as int];
            let next = s.ram[s.pc + 1];
            &&& op == 1 && s.pc <= 253 ==> t.a == next && t.b == s.b && t.pc == s.pc + 2 && t.ram == s.ram
            &&& op == 2 && s.pc <= 253 ==> t.b == next && t.a == s.a && t.pc == s.pc + 2 && t.ram == s.ram
            &&& op == 3 ==> t.a == (s.a + s.b) % 256 && t.b == s.b && t.pc == s.pc + 1 && t.ram == s.ram
            &&& op == 4 ==> t.a == (s.a as int - s.b as int) % 256 && t.b == s.b && t.pc == s.pc + 1
                && t.ram == s.ram
            &&& op == 5 ==> t.pc == next && t.a == s.a && t.b == s.b && t.ram == s.ram
        }),
{
}

/// The program `SET A, x / SET B, y / op` at address 0 (bytes 1 x 2 y op)
/// leaves `x - y` in A after three steps when `op` is 4 (SUB), and `x + y`
/// when it is 3 (ADD), both modulo 256, with `y` in B.
pub proof fn law_vm_load_then_combine(s: VmState, x: u8, y: u8)
    requires
        s.ram.len() == 256,
        s.pc == 0,
        s.ram[0] == 1,
        s.ram[1] == x,
        s.ram[2] == 2,
        s.ram[3] == y,
        s.ram[4] == 3 || s.ram[4] == 4,
    ensures
        ({
            let t = vm_step(vm_step(vm_step(s)));
            &&& t.b == y
            &&& t.pc == 5
            &&& s.ram[4] == 3 ==> t.a == (x + y) % 256
            &&& s.ram[4] == 4 ==> t.a == (x as int - y as int) % 256
        }),
{
    law_vm_register_opcodes(s);
    let s1 = vm_step(s);
    law_vm_register_opcodes(s1);
    let s2 = vm_step(s1);
    law_vm_register_opcodes(s2);
}

/// The drawing opcodes: 6 clears all of RAM; 8 lights the frame pixel
/// (A, B), the byte at B * 16 + A, with 255 when both are below 16 and
/// otherwise leaves RAM alone; 7 does the same for the two operand bytes
/// after it.  Registers are kept.
pub proof fn law_vm_drawing_opcodes(s: VmState)
    requires
        s.ram.len() == 256,
        s.pc < 253,
    ensures
        ({
            let t = vm_step(s);
            let op = s.ram[s.pc as int];
            &&& op == 6 ==> t.pc == s.pc + 1 && t.a == s.a && t.b == s.b && forall|i: int|
                0 <= i < 256 ==> #[trigger] t.ram[i] == 0
            &&& op == 8 ==> t.pc == s.pc + 1 && t.a == s.a && t.b == s.b && forall|i: int|
                0 <= i < 256 ==> #[trigger] t.ram[i] == (if s.a < 16 && s.b < 16 && i == s.b * 16 + s.a {
                    255
                } else {
                    s.ram[i]
                })
            &&& op == 7 ==> {
                let x = s.ram[s.pc + 1];
                let y = s.ram[s.pc + 2];
                &&& t.pc == s.pc + 3
                &&& t.a == s.a
                &&& t.b == s.b
                &&& forall|i: int|
                    0 <= i < 256 ==> #[trigger] t.ram[i] == (if x < 16 && y < 16 && i == y * 16 + x {
                        255
                    } else {
                        s.ram[i]
                    })
            }
        }),
{
}

} // verus!
