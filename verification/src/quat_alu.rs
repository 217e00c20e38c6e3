//! The ALU inspector and the base converter: two byte registers, eight
//! operations with their flags, and a byte shown in base 4, 10, 16 and 2.

use vstd::prelude::*;
use crate::kernel::QuatByte;
use crate::terminal::quat_digits;
use crate::text::{
    dec_str,
    hex_pad,
    zero_pad,
    radix_str,
    digit_value,
    all_digits,
    digits_value,
    parse_unsigned,
    chars_of,
    push_radix,
    parse_unsigned_chars,
    lemma_radix_nonempty,
};

verus! {

/// The ALU operations.
#[derive(Clone, Copy, Debug, PartialEq, Eq, Structural)]
pub enum AluOp {
    Add,
    Sub,
    And,
    Or,
    Xor,
    Nand,
    Shl,
    Shr,
}

/// The label of an operation.
pub open spec fn op_label(op: AluOp) -> Seq<char> {
    match op {
        AluOp::Add => "ADD (+)"@,
        AluOp::Sub => "SUB (-)"@,
        AluOp::And => "AND (&)"@,
        AluOp::Or => "OR (|)"@,
        AluOp::Xor => "XOR (^)"@,
        AluOp::Nand => "NAND (~&)"@,
        AluOp::Shl => "SHL (<<)"@,
        AluOp::Shr => "SHR (>>)"@,
    }
}

impl AluOp {
    /// The operation's label, e.g. `ADD (+)`.
    pub fn name(&self) -> (r: &'static str)
        ensures
            r@ == op_label(*self),
    {
        match self {
            AluOp::Add => "ADD (+)",
            AluOp::Sub => "SUB (-)",
            AluOp::And => "AND (&)",
            AluOp::Or => "OR (|)",
            AluOp::Xor => "XOR (^)",
            AluOp::Nand => "NAND (~&)",
            AluOp::Shl => "SHL (<<)",
            AluOp::Shr => "SHR (>>)",
        }
    }
}

/// The inspector and converter.  `active_tab`: 0 converter, 1 ALU.
pub struct QuatALU {
    pub reg_a: u8,
    pub reg_b: u8,
    pub selected_op: AluOp,
    pub input_base4: String,
    pub input_dec: String,
    pub input_hex: String,
    pub input_bin: String,
    pub active_tab: usize,
    pub status_msg: String,
}

/// The result of `op` on `a` and `b`, and its carry / overflow flag: the
/// sum or difference modulo 256 with the carry out or borrow; the bitwise
/// operations with no flag; a shift by one with the bit shifted out.
pub open spec fn alu_eval(op: AluOp, a: u8, b: u8) -> (u8, bool) {
    match op {
        AluOp::Add => (((a + b) % 256) as u8, a + b > 255),
        AluOp::Sub => (((a - b + 256) % 256) as u8, a < b),
        AluOp::And => (a & b, false),
        AluOp::Or => (a | b, false),
        AluOp::Xor => (a ^ b, false),
        AluOp::Nand => (!(a & b), false),
        AluOp::Shl => (((a * 2) % 256) as u8, a >= 128),
        AluOp::Shr => ((a / 2) as u8, a % 2 == 1),
    }
}

/// What `parse_quat_string` gives: at most four bytes of text, each
/// character a quat digit; the digits' value in base 4.
pub open spec fn quat_parse(s: Seq<char>) -> Result<u8, Seq<char>> {
    if vstd::utf8::encode_utf8(s).len() > 4 {
        Err("Maksimum 4 kvata!"@)
    } else if !all_digits(s, 4) {
        Err("Nevažeći kvat! Dozvoljene cifre: 0, 1, 2, 3"@)
    } else {
        Ok(digits_value(s, 4) as u8)
    }
}

/// The four converter fields all show `v`.
pub open spec fn shows(alu: QuatALU, v: u8) -> bool {
    &&& alu.input_dec@ == dec_str(v as nat)
    &&& alu.input_hex@ == hex_pad(v as nat, 2)
    &&& alu.input_bin@ == zero_pad(radix_str(v as nat, 2), 8)
    &&& alu.input_base4@ == quat_digits(v)
}

/// Only the converter fields and the status line may differ.
pub open spec fn registers_kept(a: QuatALU, b: QuatALU) -> bool {
    &&& b.reg_a == a.reg_a
    &&& b.reg_b == a.reg_b
    &&& b.selected_op == a.selected_op
    &&& b.active_tab == a.active_tab
}

proof fn lemma_digits_small(s: Seq<char>)
    requires
        all_digits(s, 4),
    ensures
        digits_value(s, 4) < crate::kernel::pow4(s.len() as int) || s.len() > 4,
    decreases s.len(),
{
    if s.len() > 0 {
        let t = s.drop_last();
        assert(all_digits(t, 4)) by {
            assert forall|i: int| 0 <= i < t.len() implies (#[trigger] digit_value(t[i], 4)) is Some by {
                assert(t[i] == s[i]);
            }
        }
        assert(digit_value(s[s.len() - 1], 4) is Some);
        lemma_digits_small(t);
    }
}

proof fn lemma_utf8_len(s: Seq<char>)
    ensures
        vstd::utf8::encode_utf8(s).len() >= s.len(),
    decreases s.len(),
{
    if s.len() > 0 {
        lemma_utf8_len(s.drop_first());
        assert(vstd::utf8::encode_scalar(s[0] as u32).len() >= 1);
    }
}

impl QuatALU {
    /// Registers 156 (quats 2130) and 73 (quats 1021), addition selected,
    /// the converter showing 42.
    pub fn new() -> (alu: QuatALU)
        ensures
            alu.reg_a == 156,
            alu.reg_b == 73,
            alu.selected_op == AluOp::Add,
            shows(alu, 42),
            alu.active_tab == 0,
            alu.status_msg@ == "QuatALU & Base Converter spreman za rad."@,
    {
        let mut alu = QuatALU {
            reg_a: 0b10_01_11_00,
            reg_b: 0b01_00_10_01,
            selected_op: AluOp::Add,
            input_base4: String::new(),
            input_dec: String::from_str("42"),
            input_hex: String::from_str("2A"),
            input_bin: String::from_str("00101010"),
            active_tab: 0,
            status_msg: String::from_str("QuatALU & Base Converter spreman za rad."),
        };
        alu.sync_from_dec(42);
        alu
    }

    /// Shows `val` in all four converter fields.
    pub fn sync_from_dec(&mut self, val: u8)
        ensures
            shows(*final(self), val),
            registers_kept(*old(self), *final(self)),
            final(self).status_msg == old(self).status_msg,
    {
        let mut d = String::new();
        push_radix(&mut d, val as u64, 10, 1);
        proof {
            lemma_radix_nonempty(val as nat, 10);
        }
        self.input_dec = d;
        let mut h = String::new();
        push_radix(&mut h, val as u64, 16, 2);
        self.input_hex = h;
        let mut b = String::new();
        push_radix(&mut b, val as u64, 2, 8);
        self.input_bin = b;
        self.input_base4 = Self::to_quat_string(val);
    }

    /// The four quats of `val` as digits, e.g. `0222` for 42.
    pub fn to_quat_string(val: u8) -> (s: String)
        ensures
            s@ == quat_digits(val),
    {
        let q = QuatByte(val).to_quats();
        let mut s = String::new();
        proof {
            lemma_radix_nonempty(q@[0] as nat, 10);
            lemma_radix_nonempty(q@[1] as nat, 10);
            lemma_radix_nonempty(q@[2] as nat, 10);
            lemma_radix_nonempty(q@[3] as nat, 10);
        }
        push_radix(&mut s, q[0] as u64, 10, 1);
        push_radix(&mut s, q[1] as u64, 10, 1);
        push_radix(&mut s, q[2] as u64, 10, 1);
        push_radix(&mut s, q[3] as u64, 10, 1);
        s
    }

    /// Reads up to four quat digits as a byte.
    pub fn parse_quat_string(s: &str) -> (r: Result<u8, &'static str>)
        ensures
            r is Ok <==> quat_parse(s@) is Ok,
            r is Ok ==> quat_parse(s@) == Ok::<u8, Seq<char>>(r->Ok_0),
            r is Err ==> quat_parse(s@) == Err::<u8, Seq<char>>(r->Err_0@),
    {
        if s.as_bytes().len() > 4 {
            return Err("Maksimum 4 kvata!");
        }
        let cs = chars_of(s);
        proof {
            lemma_utf8_len(s@);
        }
        let mut val: u8 = 0;
        let mut i: usize = 0;
        while i < cs.len()
            invariant
                cs@ == s@,
                cs@.len() <= 4,
                vstd::utf8::encode_utf8(s@).len() <= 4,
                i <= cs@.len(),
                all_digits(cs@.take(i as int), 4),
                val == digits_value(cs@.take(i as int), 4),
                val < crate::kernel::pow4(i as int),
            decreases cs@.len() - i,
        {
            let c = cs[i];
            let n = c as u32;
            if 48 <= n && n <= 51 {
                let digit = (n - 48) as u8;
                assert(digit_value(c, 4) == Some(digit as nat));
                assert(val < 64);
                let nv = (val << 2) | digit;
                assert(nv == val * 4 + digit) by (bit_vector)
                    requires
                        val < 64,
                        digit < 4,
                        nv == (val << 2) | digit,
                ;
                proof {
                    let t = cs@.take(i + 1);
                    assert(t.drop_last() =~= cs@.take(i as int));
                    assert(t.last() == c);
                    assert forall|k: int| 0 <= k < t.len() implies (#[trigger] digit_value(t[k], 4)) is Some by {
                        if k < i {
                            assert(t[k] == cs@.take(i as int)[k]);
                        }
                    }
                }
                val = nv;
            } else {
                assert(digit_value(c, 4) is None);
                assert(!all_digits(s@, 4)) by {
                    assert(s@[i as int] == c);
                }
                return Err("Nevažeći kvat! Dozvoljene cifre: 0, 1, 2, 3");
            }
            i = i + 1;
        }
        assert(cs@.take(cs@.len() as int) =~= cs@);
        Ok(val)
    }

    /// The result of the selected operation on the registers and its
    /// carry / overflow flag.
    pub fn alu_result(&self) -> (r: (u8, bool))
        ensures
            r == alu_eval(self.selected_op, self.reg_a, self.reg_b),
    {
        let a = self.reg_a;
        let b = self.reg_b;
        match self.selected_op {
            AluOp::Add => {
                if a as u16 + b as u16 > 255 {
                    ((a as u16 + b as u16 - 256) as u8, true)
                } else {
                    (a + b, false)
                }
            },
            AluOp::Sub => {
                if a < b {
                    ((a as u16 + 256 - b as u16) as u8, true)
                } else {
                    (a - b, false)
                }
            },
            AluOp::And => (a & b, false),
            AluOp::Or => (a | b, false),
            AluOp::Xor => (a ^ b, false),
            AluOp::Nand => (!(a & b), false),
            AluOp::Shl => {
                if a >= 128 {
                    ((a as u16 * 2 - 256) as u8, true)
                } else {
                    (a * 2, false)
                }
            },
            AluOp::Shr => (a / 2, a % 2 == 1),
        }
    }

    /// The base-4 field was edited: a valid entry is shown in every field,
    /// an invalid one reports its error.
    pub fn base4_edited(&mut self)
        ensures
            registers_kept(*old(self), *final(self)),
            match quat_parse(old(self).input_base4@) {
                Ok(v) => shows(*final(self), v) && final(self).status_msg@
                    == "Konvertovan Kvatni unos u decimalni: "@ + dec_str(v as nat),
                Err(e) => final(self).status_msg@ == "Greška: "@ + e && final(self).input_dec == old(
                    self,
                ).input_dec && final(self).input_hex == old(self).input_hex && final(self).input_bin == old(
                    self,
                ).input_bin && final(self).input_base4 == old(self).input_base4,
            },
    {
        match Self::parse_quat_string(self.input_base4.as_str()) {
            Ok(v) => {
                self.sync_from_dec(v);
                let mut m = String::from_str("Konvertovan Kvatni unos u decimalni: ");
                push_radix(&mut m, v as u64, 10, 1);
                proof {
                    lemma_radix_nonempty(v as nat, 10);
                }
                self.status_msg = m;
            },
            Err(e) => {
                let mut m = String::from_str("Greška: ");
                m.append(e);
                self.status_msg = m;
            },
        }
    }

    /// The decimal field was edited: a byte is shown in every field,
    /// anything else is reported.
    pub fn dec_edited(&mut self)
        ensures
            registers_kept(*old(self), *final(self)),
            match parse_unsigned(old(self).input_dec@, 10, 255) {
                Some(v) => shows(*final(self), v as u8) && final(self).status_msg@
                    == "Decimalni unos ažuriran."@,
                None => final(self).status_msg@ == "Unesite validan 8-bitni broj (0 - 255)."@
                    && final(self).input_dec == old(self).input_dec && final(self).input_hex == old(
                    self,
                ).input_hex && final(self).input_bin == old(self).input_bin && final(self).input_base4 == old(
                    self,
                ).input_base4,
            },
    {
        let cs = chars_of(self.input_dec.as_str());
        match parse_unsigned_chars(&cs, 10, 255) {
            Some(v) => {
                self.sync_from_dec(v as u8);
                self.status_msg = String::from_str("Decimalni unos ažuriran.");
            },
            None => {
                self.status_msg = String::from_str("Unesite validan 8-bitni broj (0 - 255).");
            },
        }
    }

    /// The hexadecimal field was edited: a byte is shown in every field;
    /// anything else is left as typed.
    pub fn hex_edited(&mut self)
        ensures
            registers_kept(*old(self), *final(self)),
            match parse_unsigned(old(self).input_hex@, 16, 255) {
                Some(v) => shows(*final(self), v as u8) && final(self).status_msg@
                    == "Heksadecimalni unos ažuriran."@,
                None => *final(self) == *old(self),
            },
    {
        let cs = chars_of(self.input_hex.as_str());
        match parse_unsigned_chars(&cs, 16, 255) {
            Some(v) => {
                self.sync_from_dec(v as u8);
                self.status_msg = String::from_str("Heksadecimalni unos ažuriran.");
            },
            None => {},
        }
    }

    /// The binary field was edited: a byte is shown in every field;
    /// anything else is left as typed.
    pub fn bin_edited(&mut self)
        ensures
            registers_kept(*old(self), *final(self)),
            match parse_unsigned(old(self).input_bin@, 2, 255) {
                Some(v) => shows(*final(self), v as u8) && final(self).status_msg@ == "Binarni unos ažuriran."@,
                None => *final(self) == *old(self),
            },
    {
        let cs = chars_of(self.input_bin.as_str());
        match parse_unsigned_chars(&cs, 2, 255) {
            Some(v) => {
                self.sync_from_dec(v as u8);
                self.status_msg = String::from_str("Binarni unos ažuriran.");
            },
            None => {},
        }
    }
}

/// The base-4 field reads back as the byte it shows: the four quat digits
/// of any byte `v` parse to `v`.
pub proof fn law_quat_string_round_trip(v: u8)
    ensures
        quat_parse(quat_digits(v)) == Ok::<u8, Seq<char>>(v),
{
    let q = crate::kernel::quats_of(v);
    crate::kernel::law_quats_round_trip(v);
    let s = quat_digits(v);
    assert forall|i: int| 0 <= i < 4 implies #[trigger] crate::terminal::quat_digit(q[i]) == seq![
        crate::text::digit_char(q[i] as nat),
    ] by {
        assert(q[i] < 4);
    }
    let c0 = crate::text::digit_char(q[0] as nat);
    let c1 = crate::text::digit_char(q[1] as nat);
    let c2 = crate::text::digit_char(q[2] as nat);
    let c3 = crate::text::digit_char(q[3] as nat);
    assert(crate::terminal::quat_digit(q[0]) == seq![c0]);
    assert(crate::terminal::quat_digit(q[1]) == seq![c1]);
    assert(crate::terminal::quat_digit(q[2]) == seq![c2]);
    assert(crate::terminal::quat_digit(q[3]) == seq![c3]);
    assert(s =~= seq![c0, c1, c2, c3]);
    assert(digit_value(c0, 4) == Some(q[0] as nat));
    assert(digit_value(c1, 4) == Some(q[1] as nat));
    assert(digit_value(c2, 4) == Some(q[2] as nat));
    assert(digit_value(c3, 4) == Some(q[3] as nat));
    assert(all_digits(s, 4));
    assert(s.drop_last() =~= seq![c0, c1, c2]);
    assert(s.drop_last().drop_last() =~= seq![c0, c1]);
    assert(s.drop_last().drop_last().drop_last() =~= seq![c0]);
    assert(seq![c0].drop_last() =~= Seq::<char>::empty());
    assert(digits_value(Seq::<char>::empty(), 4) == 0);
    assert(seq![c0].last() == c0);
    assert(digits_value(seq![c0], 4) == q[0] as nat);
    assert(digits_value(seq![c0, c1], 4) == q[0] * 4 + q[1]);
    assert(digits_value(seq![c0, c1, c2], 4) == (q[0] * 4 + q[1]) * 4 + q[2]);
    assert(digits_value(s, 4) == ((q[0] * 4 + q[1]) * 4 + q[2]) * 4 + q[3]);
    assert(s.drop_first() =~= seq![c1, c2, c3]);
    assert(s.drop_first().drop_first() =~= seq![c2, c3]);
    assert(s.drop_first().drop_first().drop_first() =~= seq![c3]);
    assert(seq![c3].drop_first() =~= Seq::<char>::empty());
    assert(c0 as u32 == 48 + q[0] && c1 as u32 == 48 + q[1]);
    assert(c2 as u32 == 48 + q[2] && c3 as u32 == 48 + q[3]);
    assert(vstd::utf8::encode_scalar(c0 as u32).len() == 1);
    assert(vstd::utf8::encode_scalar(c1 as u32).len() == 1);
    assert(vstd::utf8::encode_scalar(c2 as u32).len() == 1);
    assert(vstd::utf8::encode_scalar(c3 as u32).len() == 1);
    assert(vstd::utf8::encode_utf8(Seq::<char>::empty()).len() == 0);
    assert(vstd::utf8::encode_utf8(seq![c3]).len() == 1);
    assert(vstd::utf8::encode_utf8(seq![c2, c3]).len() == 2);
    assert(vstd::utf8::encode_utf8(seq![c1, c2, c3]).len() == 3);
    assert(vstd::utf8::encode_utf8(s).len() == 4);
}

} // verus!
