//! Quat bytes (four base-4 digits in one byte) and the kernel that steps
//! through RAM adding each byte into register A.

use vstd::prelude::*;
use vstd::string::*;
use crate::text::{digit_char, hex_pad, push_char, push_radix};

verus! {

/// A byte read as four quats: `[Q3, Q2, Q1, Q0]`, most significant first.
#[derive(Clone, Copy, Debug, PartialEq, Eq, Structural)]
pub struct QuatByte(pub u8);

/// `4^k` for `k <= 4`.
pub open spec fn pow4(k: int) -> int {
    if k <= 0 {
        1
    } else if k == 1 {
        4
    } else if k == 2 {
        16
    } else if k == 3 {
        64
    } else {
        256
    }
}

/// Quat number `i` of the byte `v` (`i == 0` is the most significant quat).
pub open spec fn quat_of(v: u8, i: int) -> u8 {
    ((v as int / pow4(3 - i)) % 4) as u8
}

/// The four quats of `v`, most significant first.
pub open spec fn quats_of(v: u8) -> Seq<u8> {
    seq![quat_of(v, 0), quat_of(v, 1), quat_of(v, 2), quat_of(v, 3)]
}

/// The value of the quats `r[i..4]` (quat `j` weighing `4^(3-j)`).
pub open spec fn quats_value(r: Seq<u8>, i: int) -> int
    decreases 4 - i,
{
    if i >= 4 {
        0
    } else {
        r[i] * pow4(3 - i) + quats_value(r, i + 1)
    }
}

/// The text `Q` followed by the four quats of `v`.
pub open spec fn quat_text(v: u8) -> Seq<char> {
    seq![
        'Q',
        digit_char(quat_of(v, 0) as nat),
        digit_char(quat_of(v, 1) as nat),
        digit_char(quat_of(v, 2) as nat),
        digit_char(quat_of(v, 3) as nat),
    ]
}

proof fn lemma_quats_by_bits(x: u8)
    ensures
        (x >> 6u8) & 3u8 == x / 64,
        (x >> 4u8) & 3u8 == (x / 16) % 4,
        (x >> 2u8) & 3u8 == (x / 4) % 4,
        x & 3u8 == x % 4,
{
    assert((x >> 6u8) & 3u8 == x / 64 && (x >> 4u8) & 3u8 == (x / 16) % 4 && (x >> 2u8) & 3u8
        == (x / 4) % 4 && x & 3u8 == x % 4) by (bit_vector);
}

proof fn lemma_pack_by_bits(q3: u8, q2: u8, q1: u8, q0: u8)
    ensures
        ((q3 & 3u8) << 6u8) | ((q2 & 3u8) << 4u8) | ((q1 & 3u8) << 2u8) | (q0 & 3u8) == (q3 % 4)
            * 64 + (q2 % 4) * 16 + (q1 % 4) * 4 + (q0 % 4),
{
    assert(((q3 & 3u8) << 6u8) | ((q2 & 3u8) << 4u8) | ((q1 & 3u8) << 2u8) | (q0 & 3u8) == (q3
        % 4) * 64 + (q2 % 4) * 16 + (q1 % 4) * 4 + (q0 % 4)) by (bit_vector);
}

/// Splitting the low quats of a byte value: for `m = 4^k` (`k < 4`),
/// `v % (4m) == v % m + ((v / m) % 4) * m`.
proof fn lemma_low_split(v: int, k: int)
    requires
        0 <= v < 256,
        0 <= k < 4,
    ensures
        v % pow4(k + 1) == v % pow4(k) + ((v / pow4(k)) % 4) * pow4(k),
{
}

impl QuatByte {
    /// Wraps a raw byte.
    pub fn new(val: u8) -> (r: QuatByte)
        ensures
            r.0 == val,
    {
        QuatByte(val)
    }

    /// Packs four quats `q3 q2 q1 q0` (each taken modulo 4) into a byte.
    pub fn from_quats(q3: u8, q2: u8, q1: u8, q0: u8) -> (r: QuatByte)
        ensures
            r.0 == (q3 % 4) * 64 + (q2 % 4) * 16 + (q1 % 4) * 4 + (q0 % 4),
    {
        proof {
            lemma_pack_by_bits(q3, q2, q1, q0);
        }
        QuatByte(((q3 & 3) << 6) | ((q2 & 3) << 4) | ((q1 & 3) << 2) | (q0 & 3))
    }

    /// Wraps a raw byte.
    pub fn from_u8(val: u8) -> (r: QuatByte)
        ensures
            r.0 == val,
    {
        QuatByte(val)
    }

    /// The raw byte.
    pub fn to_u8(&self) -> (r: u8)
        ensures
            r == self.0,
    {
        self.0
    }

    /// The four quats `[Q3, Q2, Q1, Q0]`.
    pub fn to_quats(&self) -> (r: [u8; 4])
        ensures
            r@ == quats_of(self.0),
            forall|i: int| 0 <= i < 4 ==> r@[i] < 4,
    {
        proof {
            lemma_quats_by_bits(self.0);
        }
        let r = [(self.0 >> 6) & 3, (self.0 >> 4) & 3, (self.0 >> 2) & 3, self.0 & 3];
        assert(r@ =~= quats_of(self.0));
        r
    }

    /// Quat-by-quat addition with carry; the result is the sum modulo 256
    /// and the flag says whether the sum reached 256.
    #[verifier::rlimit(40)]
    pub fn add(&self, rhs: &QuatByte) -> (r: (QuatByte, bool))
        ensures
            r.0.0 == (self.0 + rhs.0) % 256,
            r.1 == (self.0 + rhs.0 >= 256),
    {
        let a = self.to_quats();
        let b = rhs.to_quats();
        let mut res = [0u8; 4];
        let mut carry = 0u8;
        let mut i: usize = 4;
        proof {
            lemma_low_part_ends(self.0 as int);
            lemma_low_part_ends(rhs.0 as int);
        }
        while i > 0
            invariant
                i <= 4,
                a@ == quats_of(self.0),
                b@ == quats_of(rhs.0),
                forall|j: int| 0 <= j < 4 ==> a@[j] < 4 && b@[j] < 4,
                carry <= 1,
                forall|j: int| 0 <= j < 4 ==> res@[j] < 4,
                low_part(self.0 as int, 4 - i) + low_part(rhs.0 as int, 4 - i) == quats_value(res@, i as int)
                    + carry * pow4(4 - i),
            decreases i,
        {
            i = i - 1;
            let sum = a[i] + b[i] + carry;
            let ghost old_res = res@;
            let ghost old_carry = carry;
            res[i] = sum % 4;
            carry = sum / 4;
            proof {
                lemma_add_step(self.0 as int, rhs.0 as int, old_res, res@, i as int, old_carry as int, carry as int, sum as int);
            }
        }
        let out = QuatByte::from_quats(res[0], res[1], res[2], res[3]);
        proof {
            lemma_quats_value_full(res@);
            lemma_low_part_ends(self.0 as int);
            lemma_low_part_ends(rhs.0 as int);
        }
        (out, carry > 0)
    }

    /// Quat-by-quat subtraction with borrow; the result is the difference
    /// modulo 256 and the flag says whether a borrow was left over
    /// (the right operand was larger).
    pub fn sub(&self, rhs: &QuatByte) -> (r: (QuatByte, bool))
        ensures
            r.0.0 == (self.0 - rhs.0 + 256) % 256,
            r.1 == (self.0 < rhs.0),
    {
        let a = self.to_quats();
        let b = rhs.to_quats();
        let mut res = [0u8; 4];
        let mut borrow: i16 = 0;
        let mut i: usize = 4;
        proof {
            lemma_low_part_ends(self.0 as int);
            lemma_low_part_ends(rhs.0 as int);
        }
        while i > 0
            invariant
                i <= 4,
                a@ == quats_of(self.0),
                b@ == quats_of(rhs.0),
                forall|j: int| 0 <= j < 4 ==> a@[j] < 4 && b@[j] < 4,
                0 <= borrow <= 1,
                forall|j: int| 0 <= j < 4 ==> res@[j] < 4,
                low_part(self.0 as int, 4 - i) - low_part(rhs.0 as int, 4 - i) == quats_value(res@, i as int)
                    - borrow * pow4(4 - i),
            decreases i,
        {
            i = i - 1;
            let ghost old_borrow = borrow;
            let mut diff = a[i] as i16 - b[i] as i16 - borrow;
            let ghost raw = diff;
            if diff < 0 {
                diff += 4;
                borrow = 1;
            } else {
                borrow = 0;
            }
            let ghost old_res = res@;
            res[i] = diff as u8;
            proof {
                lemma_sub_step(self.0 as int, rhs.0 as int, old_res, res@, i as int, old_borrow as int, borrow as int, raw as int);
            }
        }
        let out = QuatByte::from_quats(res[0], res[1], res[2], res[3]);
        proof {
            lemma_quats_value_full(res@);
            lemma_low_part_ends(self.0 as int);
            lemma_low_part_ends(rhs.0 as int);
        }
        (out, borrow > 0)
    }

    /// The text `Q` followed by the four quats, e.g. `Q0222` for 42.
    pub fn to_quat_str(&self) -> (s: String)
        ensures
            s@ == quat_text(self.0),
    {
        let q = self.to_quats();
        let mut s = String::new();
        push_char(&mut s, 'Q');
        push_radix(&mut s, q[0] as u64, 10, 1);
        push_radix(&mut s, q[1] as u64, 10, 1);
        push_radix(&mut s, q[2] as u64, 10, 1);
        push_radix(&mut s, q[3] as u64, 10, 1);
        assert(s@ =~= quat_text(self.0));
        s
    }
}

proof fn lemma_quats_value_tail(r1: Seq<u8>, r2: Seq<u8>, i: int)
    requires
        0 <= i <= 4,
        r1.len() == 4,
        r2.len() == 4,
        forall|j: int| i <= j < 4 ==> r1[j] == r2[j],
    ensures
        quats_value(r1, i) == quats_value(r2, i),
    decreases 4 - i,
{
    if i < 4 {
        lemma_quats_value_tail(r1, r2, i + 1);
    }
}

proof fn lemma_quats_value_full(r: Seq<u8>)
    requires
        r.len() == 4,
        forall|j: int| 0 <= j < 4 ==> r[j] < 4,
    ensures
        quats_value(r, 0) == (r[0] % 4) * 64 + (r[1] % 4) * 16 + (r[2] % 4) * 4 + (r[3] % 4),
        0 <= quats_value(r, 0) < 256,
{
    reveal_with_fuel(quats_value, 5);
}

/// The low `k` quats of `v`: `v % 4^k`.
#[verifier::opaque]
pub open spec fn low_part(v: int, k: int) -> int {
    v % pow4(k)
}

proof fn lemma_low_part_ends(v: int)
    requires
        0 <= v < 256,
    ensures
        low_part(v, 0) == 0,
        low_part(v, 4) == v,
{
    reveal(low_part);
}

proof fn lemma_pow4_step(i: int)
    requires
        0 <= i < 4,
    ensures
        pow4(4 - i) == 4 * pow4(3 - i),
        pow4(3 - i) >= 1,
{
}

proof fn lemma_add_step(x: int, y: int, old_res: Seq<u8>, res: Seq<u8>, i: int, c0: int, c1: int, sum: int)
    requires
        0 <= x < 256,
        0 <= y < 256,
        0 <= i < 4,
        0 <= c0 <= 1,
        old_res.len() == 4,
        sum == quat_of(x as u8, i) + quat_of(y as u8, i) + c0,
        res == old_res.update(i, (sum % 4) as u8),
        c1 == sum / 4,
        low_part(x, 3 - i) + low_part(y, 3 - i) == quats_value(old_res, i + 1) + c0 * pow4(3 - i),
    ensures
        low_part(x, 4 - i) + low_part(y, 4 - i) == quats_value(res, i) + c1 * pow4(4 - i),
{
    reveal(low_part);
    let m = pow4(3 - i);
    lemma_pow4_step(i);
    lemma_low_split(x, 3 - i);
    lemma_low_split(y, 3 - i);
    lemma_quats_value_tail(res, old_res, i + 1);
    let qx = (x / m) % 4;
    let qy = (y / m) % 4;
    assert(quat_of(x as u8, i) as int == qx);
    assert(quat_of(y as u8, i) as int == qy);
    assert(sum >= 0);
    assert(res[i] as int == sum % 4);
    assert(quats_value(res, i) == res[i] * m + quats_value(res, i + 1));
    assert((qx + qy) * m + c0 * m == (sum % 4) * m + (sum / 4) * (4 * m)) by (nonlinear_arith)
        requires
            sum == qx + qy + c0,
            sum >= 0,
    ;
}

proof fn lemma_sub_step(x: int, y: int, old_res: Seq<u8>, res: Seq<u8>, i: int, b0: int, b1: int, raw: int)
    requires
        0 <= x < 256,
        0 <= y < 256,
        0 <= i < 4,
        0 <= b0 <= 1,
        old_res.len() == 4,
        raw == quat_of(x as u8, i) - quat_of(y as u8, i) - b0,
        res == old_res.update(i, (if raw < 0 { raw + 4 } else { raw }) as u8),
        b1 == (if raw < 0 { 1int } else { 0int }),
        low_part(x, 3 - i) - low_part(y, 3 - i) == quats_value(old_res, i + 1) - b0 * pow4(3 - i),
    ensures
        low_part(x, 4 - i) - low_part(y, 4 - i) == quats_value(res, i) - b1 * pow4(4 - i),
{
    reveal(low_part);
    let m = pow4(3 - i);
    lemma_pow4_step(i);
    lemma_low_split(x, 3 - i);
    lemma_low_split(y, 3 - i);
    lemma_quats_value_tail(res, old_res, i + 1);
    let qx = (x / m) % 4;
    let qy = (y / m) % 4;
    assert(quat_of(x as u8, i) as int == qx);
    assert(quat_of(y as u8, i) as int == qy);
    let d = if raw < 0 { raw + 4 } else { raw };
    assert(0 <= d < 4);
    assert(res[i] as int == d);
    assert(quats_value(res, i) == res[i] * m + quats_value(res, i + 1));
    assert((qx - qy) * m - b0 * m == d * m - b1 * (4 * m)) by (nonlinear_arith)
        requires
            raw == qx - qy - b0,
            d == raw + 4 * b1,
    ;
}

/// The views of a list of strings.
pub open spec fn texts(v: Seq<String>) -> Seq<Seq<char>> {
    v.map_values(|s: String| s@)
}

/// `s` with `x` appended, dropping the oldest entry when the result holds
/// more than `cap` entries.
pub open spec fn bounded_push<T>(s: Seq<T>, x: T, cap: nat) -> Seq<T> {
    if s.push(x).len() > cap {
        s.push(x).drop_first()
    } else {
        s.push(x)
    }
}

/// `true` or `false`.
pub open spec fn bool_text(b: bool) -> Seq<char> {
    if b {
        "true"@
    } else {
        "false"@
    }
}

/// The log line written by one kernel step at `pc`, after register A
/// became `a` with the given carry.
pub open spec fn step_message(pc: u8, a: u8, carry: bool) -> Seq<char> {
    "PC: "@ + hex_pad(pc as nat, 2) + " | RegA = "@ + quat_text(a) + " (Quats: ["@ + seq![
        digit_char(quat_of(a, 0) as nat),
    ] + ", "@ + seq![digit_char(quat_of(a, 1) as nat)] + ", "@ + seq![
        digit_char(quat_of(a, 2) as nat),
    ] + ", "@ + seq![digit_char(quat_of(a, 3) as nat)] + "]) | Carry: "@ + bool_text(carry)
}

/// The greeting that a new kernel logs first.
pub open spec fn kernel_greeting() -> Seq<char> {
    "QuatKernel 4^4 Inicijalizovan u Nativnom Četvernom Modu."@
}

/// The log line written when the sample program is loaded.
pub open spec fn sample_loaded_message() -> Seq<char> {
    "Sample program uspešno učitan u RAM."@
}

/// Appends `"true"` or `"false"`.
pub fn push_bool(s: &mut String, b: bool)
    ensures
        final(s)@ == old(s)@ + bool_text(b),
{
    if b {
        s.append("true");
    } else {
        s.append("false");
    }
}

/// The kernel: 256 bytes of RAM, 256 bytes of video RAM, two registers,
/// a program counter and a bounded log.
pub struct QuatKernel {
    pub ram: [QuatByte; 256],
    pub vram: [QuatByte; 256],
    pub reg_a: QuatByte,
    pub reg_b: QuatByte,
    pub pc: u8,
    pub is_running: bool,
    pub logs: Vec<String>,
}

/// `k1` is the kernel `k0` after one tick (see `QuatKernel::step`).
pub open spec fn stepped(k0: QuatKernel, k1: QuatKernel) -> bool {
    &&& k0.pc >= 250 ==> {
        &&& !k1.is_running
        &&& k1.pc == k0.pc
        &&& k1.reg_a == k0.reg_a
        &&& k1.logs == k0.logs
    }
    &&& k0.pc < 250 ==> {
        let sum = k0.reg_a.0 + k0.ram@[k0.pc as int].0;
        &&& k1.reg_a.0 == sum % 256
        &&& k1.pc == k0.pc + 1
        &&& k1.is_running == k0.is_running
        &&& texts(k1.logs@) == bounded_push(texts(k0.logs@), step_message(k0.pc, (sum % 256) as u8, sum >= 256), 50)
    }
    &&& k1.ram == k0.ram
    &&& k1.vram == k0.vram
    &&& k1.reg_b == k0.reg_b
}

impl QuatKernel {
    /// A fresh kernel: zeroed memory and registers, stopped, with the
    /// sample program (`Q0022`, `Q0011`) loaded at addresses 0 and 1.
    pub fn new() -> (k: QuatKernel)
        ensures
            k.ram@[0].0 == 10,
            k.ram@[1].0 == 5,
            forall|i: int| 2 <= i < 256 ==> k.ram@[i].0 == 0,
            forall|i: int| 0 <= i < 256 ==> k.vram@[i].0 == 0,
            k.reg_a.0 == 0,
            k.reg_b.0 == 0,
            k.pc == 0,
            !k.is_running,
            texts(k.logs@) == seq![kernel_greeting(), sample_loaded_message()],
    {
        let mut logs: Vec<String> = Vec::new();
        logs.push(String::from_str("QuatKernel 4^4 Inicijalizovan u Nativnom Četvernom Modu."));
        let mut kernel = QuatKernel {
            ram: [QuatByte(0); 256],
            vram: [QuatByte(0); 256],
            reg_a: QuatByte(0),
            reg_b: QuatByte(0),
            pc: 0,
            is_running: false,
            logs,
        };
        kernel.load_sample_program();
        assert(texts(kernel.logs@) =~= seq![kernel_greeting(), sample_loaded_message()]);
        kernel
    }

    /// Writes the sample program `Q0022`, `Q0011` to addresses 0 and 1 and
    /// logs that it did.
    pub fn load_sample_program(&mut self)
        ensures
            final(self).ram@ == old(self).ram@.update(0, QuatByte(10)).update(1, QuatByte(5)),
            texts(final(self).logs@) == bounded_push(texts(old(self).logs@), sample_loaded_message(), 50),
            final(self).vram == old(self).vram,
            final(self).reg_a == old(self).reg_a,
            final(self).reg_b == old(self).reg_b,
            final(self).pc == old(self).pc,
            final(self).is_running == old(self).is_running,
    {
        self.ram[0] = QuatByte::from_quats(0, 0, 2, 2);
        self.ram[1] = QuatByte::from_quats(0, 0, 1, 1);
        self.log(String::from_str("Sample program uspešno učitan u RAM."));
    }

    /// One tick: below address 250, adds the byte at `pc` into register A
    /// (quat addition), logs the step and advances `pc`; from 250 on it
    /// stops the kernel instead.
    pub fn step(&mut self)
        ensures
            stepped(*old(self), *final(self)),
    {
        if self.pc >= 250 {
            self.is_running = false;
            return;
        }
        let data = self.ram[self.pc as usize];
        let (new_reg_a, carry) = self.reg_a.add(&data);
        self.reg_a = new_reg_a;
        let q = self.reg_a.to_quats();
        let mut msg = String::from_str("PC: ");
        push_radix(&mut msg, self.pc as u64, 16, 2);
        msg.append(" | RegA = ");
        let qs = self.reg_a.to_quat_str();
        msg.append(qs.as_str());
        msg.append(" (Quats: [");
        push_radix(&mut msg, q[0] as u64, 10, 1);
        msg.append(", ");
        push_radix(&mut msg, q[1] as u64, 10, 1);
        msg.append(", ");
        push_radix(&mut msg, q[2] as u64, 10, 1);
        msg.append(", ");
        push_radix(&mut msg, q[3] as u64, 10, 1);
        msg.append("]) | Carry: ");
        push_bool(&mut msg, carry);
        assert(msg@ =~= step_message(self.pc, self.reg_a.0, carry));
        self.log(msg);
        self.pc += 1;
    }

    /// Appends a line to the log, dropping the oldest line once the log
    /// holds more than 50 lines.
    pub fn log(&mut self, msg: String)
        ensures
            texts(final(self).logs@) == bounded_push(texts(old(self).logs@), msg@, 50),
            final(self).ram == old(self).ram,
            final(self).vram == old(self).vram,
            final(self).reg_a == old(self).reg_a,
            final(self).reg_b == old(self).reg_b,
            final(self).pc == old(self).pc,
            final(self).is_running == old(self).is_running,
    {
        let ghost before = texts(self.logs@);
        self.logs.push(msg);
        assert(texts(self.logs@) =~= before.push(msg@));
        if self.logs.len() > 50 {
            self.logs.remove(0);
            assert(texts(self.logs@) =~= before.push(msg@).drop_first());
        }
    }
}

/// Splitting a byte into quats and packing them again gives the byte back.
pub proof fn law_quats_round_trip(v: u8)
    ensures
        (quats_of(v)[0] % 4) * 64 + (quats_of(v)[1] % 4) * 16 + (quats_of(v)[2] % 4) * 4 + (quats_of(v)[3] % 4)
            == v,
        forall|i: int| 0 <= i < 4 ==> #[trigger] quats_of(v)[i] < 4,
{
    assert(quat_of(v, 0) == v / 64);
    assert(quat_of(v, 1) == (v / 16) % 4);
    assert(quat_of(v, 2) == (v / 4) % 4);
    assert(quat_of(v, 3) == v % 4);
    assert((v / 64) % 4 * 64 + ((v / 16) % 4) * 16 + ((v / 4) % 4) * 4 + v % 4 == v) by (bit_vector);
}

/// Packing four quats and splitting the byte again gives the quats back.
pub proof fn law_pack_round_trip(q3: u8, q2: u8, q1: u8, q0: u8)
    requires
        q3 < 4,
        q2 < 4,
        q1 < 4,
        q0 < 4,
    ensures
        quats_of(((q3 % 4) * 64 + (q2 % 4) * 16 + (q1 % 4) * 4 + (q0 % 4)) as u8) == seq![q3, q2, q1, q0],
{
    let v = ((q3 % 4) * 64 + (q2 % 4) * 16 + (q1 % 4) * 4 + (q0 % 4)) as u8;
    assert(v == q3 * 64 + q2 * 16 + q1 * 4 + q0);
    assert(v / 64 == q3 && (v / 16) % 4 == q2 && (v / 4) % 4 == q1 && v % 4 == q0) by (bit_vector)
        requires
            q3 < 4,
            q2 < 4,
            q1 < 4,
            q0 < 4,
            v == q3 * 64 + q2 * 16 + q1 * 4 + q0,
    ;
    assert(quat_of(v, 0) == v / 64);
    assert(quat_of(v, 1) == (v / 16) % 4);
    assert(quat_of(v, 2) == (v / 4) % 4);
    assert(quat_of(v, 3) == v % 4);
    assert(quats_of(v) =~= seq![q3, q2, q1, q0]);
}

/// Quat subtraction undoes quat addition: `(a + b) - b == a`, and the
/// addition carries exactly when the subtraction of `b` from the wrapped
/// sum borrows.
pub proof fn law_add_then_sub(a: u8, b: u8)
    ensures
        (((a + b) % 256) as u8 - b + 256) % 256 == a,
        (a + b >= 256) == ((((a + b) % 256) as u8) < b),
{
}

} // verus!
