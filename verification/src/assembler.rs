//! The two-pass assembler: the first pass strips comments, records
//! `%DEFINE` constants and label addresses; the second emits bytecode and
//! resolves numbers, constants and labels.

use vstd::prelude::*;
use crate::kernel::{QuatByte, QuatKernel, texts};
use crate::symbols::SymbolTable;
use crate::text::{
    before_char, before_slashes, chars_are, chars_of, chars_start_with, dec_str, first_char,
    first_slashes, lines, parse_unsigned, parse_unsigned_chars, push_chars, push_dec, split_lines,
    split_words, starts_with, trim, trim_char, trim_chars, trim_chars_of, trim_end_char,
    trim_end_chars_of, upper_chars, upper_text, words,
};

verus! {

/// An instruction line after the first pass: its upper-case mnemonic, its
/// arguments and its 1-based line number.
pub struct AsmLine {
    pub op: Seq<char>,
    pub args: Seq<Seq<char>>,
    pub line_num: nat,
}

/// What the first pass has gathered.
pub struct FirstPass {
    pub lines: Seq<AsmLine>,
    pub defines: Map<Seq<char>, u8>,
    pub labels: Map<Seq<char>, u8>,
    pub errors: Seq<Seq<char>>,
    pub addr: u8,
}

/// What the second pass has gathered.
pub struct SecondPass {
    pub bytes: Seq<u8>,
    pub errors: Seq<Seq<char>>,
}

/// `Linija <n>: ` — the prefix of every assembler error.
pub open spec fn line_tag(n: nat) -> Seq<char> {
    "Linija "@ + dec_str(n) + ": "@
}

/// The code of a source line: the text before `//`, then before `;`,
/// trimmed.
pub open spec fn code_of(raw: Seq<char>) -> Seq<char> {
    let a = raw.take(first_slashes(raw) as int);
    trim(a.take(first_char(a, ';') as int))
}

/// An argument as written after the mnemonic: commas around it removed,
/// then trimmed.
pub open spec fn arg_text(p: Seq<char>) -> Seq<char> {
    trim(trim_char(p, ','))
}

/// The size in bytes the first pass gives an instruction when it places
/// labels: what the second pass emits for it (`SET` and `JMP` two bytes,
/// `BEEP` three, `DRAW` with five arguments six), and two for the
/// reserved mnemonics `JZ`, `JNZ`, `CALL`, `PUSH` and `POP`.
pub open spec fn instr_len(op: Seq<char>, nargs: nat) -> u8 {
    if op == "BEEP"@ {
        3
    } else if op == "SET"@ || op == "JMP"@ || op == "JZ"@ || op == "JNZ"@ || op == "CALL"@
        || op == "PUSH"@ || op == "POP"@ {
        2
    } else if op == "DRAW"@ && nargs >= 5 {
        6
    } else {
        1
    }
}

/// `a + b`, stopping at 255.
pub open spec fn sat_add(a: u8, b: u8) -> u8 {
    if a + b > 255 {
        255
    } else {
        (a + b) as u8
    }
}

/// The first pass before any line.
pub open spec fn first_pass_start() -> FirstPass {
    FirstPass {
        lines: Seq::empty(),
        defines: Map::empty(),
        labels: Map::empty(),
        errors: Seq::empty(),
        addr: 0,
    }
}

/// The first pass after the source line `raw`, numbered `num`.
pub open spec fn first_pass_line(st: FirstPass, raw: Seq<char>, num: nat) -> FirstPass {
    let code = code_of(raw);
    if code.len() == 0 {
        st
    } else if starts_with(code, "%DEFINE"@) || starts_with(code, "%define"@) {
        let parts = words(code);
        if parts.len() == 3 {
            match parse_unsigned(parts[2], 10, 255) {
                Some(v) => FirstPass { defines: st.defines.insert(upper_text(parts[1]), v as u8), ..st },
                None => FirstPass {
                    errors: st.errors.push(line_tag(num) + "Nevaljala vrednost za %DEFINE"@),
                    ..st
                },
            }
        } else {
            FirstPass {
                errors: st.errors.push(line_tag(num) + "Sintaksa %DEFINE zahteva ime i u8 vrednost"@),
                ..st
            }
        }
    } else if code.last() == ':' {
        let name = upper_text(trim(trim_end_char(code, ':')));
        if name.len() == 0 {
            FirstPass { errors: st.errors.push(line_tag(num) + "Prazno ime labele"@), ..st }
        } else {
            FirstPass { labels: st.labels.insert(name, st.addr), ..st }
        }
    } else {
        let parts = words(code);
        let op = upper_text(parts[0]);
        let args = parts.skip(1).map_values(|p: Seq<char>| arg_text(p));
        FirstPass {
            lines: st.lines.push(AsmLine { op, args, line_num: num }),
            addr: sat_add(st.addr, instr_len(op, args.len())),
            ..st
        }
    }
}

/// The first pass over the source lines `ls`.
pub open spec fn first_pass(ls: Seq<Seq<char>>) -> FirstPass
    decreases ls.len(),
{
    if ls.len() == 0 {
        first_pass_start()
    } else {
        first_pass_line(first_pass(ls.drop_last()), ls.last(), ls.len())
    }
}

/// The value of an argument: a decimal byte, else a `%DEFINE` constant,
/// else a label (names looked up in upper case).
pub open spec fn resolve(arg: Seq<char>, defines: Map<Seq<char>, u8>, labels: Map<Seq<char>, u8>) -> Option<u8> {
    match parse_unsigned(arg, 10, 255) {
        Some(v) => Some(v as u8),
        None => if defines.contains_key(upper_text(arg)) {
            Some(defines[upper_text(arg)])
        } else if labels.contains_key(upper_text(arg)) {
            Some(labels[upper_text(arg)])
        } else {
            None
        },
    }
}

/// The message for an argument that resolves to nothing.
pub open spec fn unknown_symbol_message(num: nat, arg: Seq<char>) -> Seq<char> {
    line_tag(num) + "Nepoznat simbol, labela ili vrednost '"@ + arg + "'"@
}

/// `o`'s value, or `d` when there is none.
pub open spec fn or_default(o: Option<u8>, d: u8) -> u8 {
    match o {
        Some(v) => v,
        None => d,
    }
}

/// The second pass after the instruction line `l`.  `SET A, v` and
/// `SET B, v` emit the machine's two load opcodes (1 and 2) followed by
/// `v`; `JMP` emits 5 and its target; `DRAW` with five arguments emits 7
/// and them, with fewer the register form 8; `BEEP` emits 9, frequency
/// and duration.
pub open spec fn second_pass_line(
    st: SecondPass,
    l: AsmLine,
    defines: Map<Seq<char>, u8>,
    labels: Map<Seq<char>, u8>,
) -> SecondPass {
    let n = l.line_num;
    let a = l.args;
    if l.op == "NOP"@ {
        SecondPass { bytes: st.bytes.push(0), ..st }
    } else if l.op == "SET"@ {
        if a.len() < 2 {
            SecondPass { errors: st.errors.push(line_tag(n) + "SET zahteva registar i vrednost"@), ..st }
        } else {
            let ru = upper_text(a[0]);
            let reg: u8 = if ru == "A"@ {
                1
            } else if ru == "B"@ {
                2
            } else {
                0
            };
            let e1 = if reg == 0 {
                st.errors.push(line_tag(n) + "Nepoznat registar '"@ + a[0] + "'"@)
            } else {
                st.errors
            };
            let v = resolve(a[1], defines, labels);
            let e2 = if v is Some {
                e1
            } else {
                e1.push(unknown_symbol_message(n, a[1]))
            };
            SecondPass { bytes: st.bytes + seq![reg, or_default(v, 0)], errors: e2 }
        }
    } else if l.op == "ADD"@ {
        SecondPass { bytes: st.bytes.push(3), ..st }
    } else if l.op == "SUB"@ {
        SecondPass { bytes: st.bytes.push(4), ..st }
    } else if l.op == "JMP"@ {
        if a.len() == 0 {
            SecondPass {
                errors: st.errors.push(line_tag(n) + "JMP zahteva ciljnu adresu ili labelu"@),
                ..st
            }
        } else {
            let v = resolve(a[0], defines, labels);
            let e = if v is Some {
                st.errors
            } else {
                st.errors.push(unknown_symbol_message(n, a[0]))
            };
            SecondPass { bytes: st.bytes + seq![5u8, or_default(v, 0)], errors: e }
        }
    } else if l.op == "CLS"@ {
        SecondPass { bytes: st.bytes.push(6), ..st }
    } else if l.op == "DRAW"@ {
        if a.len() >= 5 {
            SecondPass {
                bytes: st.bytes + seq![
                    7u8,
                    or_default(resolve(a[0], defines, labels), 0),
                    or_default(resolve(a[1], defines, labels), 0),
                    or_default(resolve(a[2], defines, labels), 10),
                    or_default(resolve(a[3], defines, labels), 10),
                    or_default(resolve(a[4], defines, labels), 14),
                ],
                ..st
            }
        } else {
            SecondPass { bytes: st.bytes.push(8), ..st }
        }
    } else if l.op == "BEEP"@ {
        let freq = if a.len() > 0 {
            or_default(resolve(a[0], defines, labels), 100)
        } else {
            100
        };
        let dur = if a.len() > 1 {
            or_default(resolve(a[1], defines, labels), 50)
        } else {
            50
        };
        SecondPass { bytes: st.bytes + seq![9u8, freq, dur], ..st }
    } else if l.op == "HALT"@ {
        SecondPass { bytes: st.bytes.push(15), ..st }
    } else {
        SecondPass {
            errors: st.errors.push(line_tag(n) + "Nepoznata komanda '"@ + l.op + "'"@),
            ..st
        }
    }
}

/// The demo program the assembler starts with: it draws a square and
/// beeps.
pub open spec fn asm_demo_source() -> Seq<char> {
    "// === QuatOS Demo Asemblerski Program ===\n// Crta kvadrat i daje zvučni signal\n\n%DEFINE COLOR_CYAN 11\n%DEFINE BEEP_FREQ 440\n\nstart:\n    CLS\n    SET A, 10\n    SET B, 15\n\ndraw_loop:\n    DRAW A, B, 20, 20, COLOR_CYAN\n    BEEP BEEP_FREQ, 150\n    ADD A, 5\n    JMP check_limit\n\ncheck_limit:\n    // Ako smo prešli poziciju 50, skoči na kraj\n    // U realnom sistemu ovde ide CMP / JZ\n    JMP end_prog\n\nend_prog:\n    BEEP 880, 300\n    NOP\n"@
}

/// Each mnemonic assembles to the opcode the machine runs for it: `NOP` 0,
/// `ADD` 3, `SUB` 4, `CLS` 6, `HALT` 15 (one byte each); `SET A, v` the
/// byte pair 1 v and `SET B, v` 2 v; `JMP t` 5 t; `BEEP` 9 and two
/// operand bytes; `DRAW` with five arguments 7 and five bytes, with fewer
/// the single byte 8.  A line whose operands all resolve adds no error.
pub proof fn law_mnemonic_opcodes(
    st: SecondPass,
    l: AsmLine,
    defines: Map<Seq<char>, u8>,
    labels: Map<Seq<char>, u8>,
)
    ensures
        ({
            let r = second_pass_line(st, l, defines, labels);
            let a = l.args;
            &&& l.op == "NOP"@ ==> r.bytes == st.bytes.push(0u8) && r.errors == st.errors
            &&& l.op == "ADD"@ ==> r.bytes == st.bytes.push(3u8) && r.errors == st.errors
            &&& l.op == "SUB"@ ==> r.bytes == st.bytes.push(4u8) && r.errors == st.errors
            &&& l.op == "CLS"@ ==> r.bytes == st.bytes.push(6u8) && r.errors == st.errors
            &&& l.op == "HALT"@ ==> r.bytes == st.bytes.push(15u8) && r.errors == st.errors
            &&& (l.op == "SET"@ && a.len() >= 2 && upper_text(a[0]) == "A"@ && resolve(a[1], defines, labels) is Some)
                ==> r.bytes == st.bytes + seq![1u8, resolve(a[1], defines, labels)->0] && r.errors == st.errors
            &&& (l.op == "SET"@ && a.len() >= 2 && upper_text(a[0]) == "B"@ && resolve(a[1], defines, labels) is Some)
                ==> r.bytes == st.bytes + seq![2u8, resolve(a[1], defines, labels)->0] && r.errors == st.errors
            &&& (l.op == "JMP"@ && a.len() >= 1 && resolve(a[0], defines, labels) is Some) ==> r.bytes == st.bytes
                + seq![5u8, resolve(a[0], defines, labels)->0] && r.errors == st.errors
            &&& l.op == "BEEP"@ ==> r.bytes.len() == st.bytes.len() + 3 && r.bytes.take(st.bytes.len() as int)
                == st.bytes && r.bytes[st.bytes.len() as int] == 9u8 && r.errors == st.errors
            &&& (l.op == "DRAW"@ && a.len() >= 5) ==> r.bytes.len() == st.bytes.len() + 6 && r.bytes.take(
                st.bytes.len() as int,
            ) == st.bytes && r.bytes[st.bytes.len() as int] == 7u8 && r.errors == st.errors
            &&& (l.op == "DRAW"@ && a.len() < 5) ==> r.bytes == st.bytes.push(8u8) && r.errors == st.errors
        }),
{
    reveal_strlit("NOP");
    reveal_strlit("SET");
    reveal_strlit("ADD");
    reveal_strlit("SUB");
    reveal_strlit("JMP");
    reveal_strlit("CLS");
    reveal_strlit("DRAW");
    reveal_strlit("BEEP");
    reveal_strlit("HALT");
    reveal_strlit("A");
    reveal_strlit("B");
    assert("SET"@[0] != "NOP"@[0]);
    assert("ADD"@[0] != "NOP"@[0]);
    assert("ADD"@[0] != "SET"@[0]);
    assert("SUB"@[0] != "NOP"@[0]);
    assert("SUB"@[1] != "SET"@[1]);
    assert("SUB"@[0] != "ADD"@[0]);
    assert("JMP"@[0] != "NOP"@[0]);
    assert("JMP"@[0] != "SET"@[0]);
    assert("JMP"@[0] != "ADD"@[0]);
    assert("JMP"@[0] != "SUB"@[0]);
    assert("CLS"@[0] != "NOP"@[0]);
    assert("CLS"@[0] != "SET"@[0]);
    assert("CLS"@[0] != "ADD"@[0]);
    assert("CLS"@[0] != "SUB"@[0]);
    assert("CLS"@[0] != "JMP"@[0]);
    assert("DRAW"@.len() != "NOP"@.len());
    assert("DRAW"@.len() != "SET"@.len());
    assert("DRAW"@.len() != "ADD"@.len());
    assert("DRAW"@.len() != "SUB"@.len());
    assert("DRAW"@.len() != "JMP"@.len());
    assert("DRAW"@.len() != "CLS"@.len());
    assert("BEEP"@.len() != "NOP"@.len());
    assert("BEEP"@.len() != "SET"@.len());
    assert("BEEP"@.len() != "ADD"@.len());
    assert("BEEP"@.len() != "SUB"@.len());
    assert("BEEP"@.len() != "JMP"@.len());
    assert("BEEP"@.len() != "CLS"@.len());
    assert("BEEP"@[0] != "DRAW"@[0]);
    assert("HALT"@.len() != "NOP"@.len());
    assert("HALT"@.len() != "SET"@.len());
    assert("HALT"@.len() != "ADD"@.len());
    assert("HALT"@.len() != "SUB"@.len());
    assert("HALT"@.len() != "JMP"@.len());
    assert("HALT"@.len() != "CLS"@.len());
    assert("HALT"@[0] != "DRAW"@[0]);
    assert("HALT"@[0] != "BEEP"@[0]);
    assert("A"@[0] != "B"@[0]);
    let r = second_pass_line(st, l, defines, labels);
    if l.op == "BEEP"@ || (l.op == "DRAW"@ && l.args.len() >= 5) {
        assert(r.bytes.take(st.bytes.len() as int) =~= st.bytes);
    }
}

/// The second pass over the instruction lines `ls`.
pub open spec fn second_pass(
    ls: Seq<AsmLine>,
    defines: Map<Seq<char>, u8>,
    labels: Map<Seq<char>, u8>,
) -> SecondPass
    decreases ls.len(),
{
    if ls.len() == 0 {
        SecondPass { bytes: Seq::empty(), errors: Seq::empty() }
    } else {
        second_pass_line(second_pass(ls.drop_last(), defines, labels), ls.last(), defines, labels)
    }
}

/// The message with which a compilation fails after the first pass.
pub open spec fn first_pass_failure() -> Seq<char> {
    "Greške u prvom prolazu kompilacije."@
}

/// The message with which a compilation fails after the second pass.
pub open spec fn second_pass_failure() -> Seq<char> {
    "Greške tokom generisanja bajtkoda."@
}

/// The error log that compiling `src` leaves.
pub open spec fn assemble_errors(src: Seq<char>) -> Seq<Seq<char>> {
    let fp = first_pass(lines(src));
    if fp.errors.len() > 0 {
        fp.errors
    } else {
        second_pass(fp.lines, fp.defines, fp.labels).errors
    }
}

/// What compiling `src` gives: the bytecode, or the failure message.
pub open spec fn assemble(src: Seq<char>) -> Result<Seq<u8>, Seq<char>> {
    let fp = first_pass(lines(src));
    if fp.errors.len() > 0 {
        Err(first_pass_failure())
    } else {
        let sp = second_pass(fp.lines, fp.defines, fp.labels);
        if sp.errors.len() > 0 {
            Err(second_pass_failure())
        } else {
            Ok(sp.bytes)
        }
    }
}

/// The raw bytes of a sequence of quat bytes.
pub open spec fn byte_values(v: Seq<QuatByte>) -> Seq<u8> {
    v.map_values(|b: QuatByte| b.0)
}


/// An instruction line kept between the passes.
struct ExecLine {
    op: Vec<char>,
    args: Vec<Vec<char>>,
    line_num: usize,
}

impl ExecLine {
    spec fn view_line(&self) -> AsmLine {
        AsmLine {
            op: self.op@,
            args: self.args@.map_values(|a: Vec<char>| a@),
            line_num: self.line_num as nat,
        }
    }
}

spec fn exec_lines_view(v: Seq<ExecLine>) -> Seq<AsmLine> {
    v.map_values(|l: ExecLine| l.view_line())
}

/// The assembler's state: its source text, the last bytecode, the label
/// table and the error log of the last compilation.
pub struct Assembler {
    pub source_code: String,
    pub compiled_bytecode: Vec<QuatByte>,
    pub label_table: SymbolTable,
    pub error_log: Vec<String>,
    pub status_message: String,
    pub show_hex: bool,
    pub auto_load_to_ram: bool,
}

fn push_tag(s: &mut String, n: usize)
    ensures
        final(s)@ == old(s)@ + line_tag(n as nat),
{
    s.append("Linija ");
    push_dec(s, n as u64);
    s.append(": ");
}

fn line_message(n: usize, text: &str) -> (s: String)
    ensures
        s@ == line_tag(n as nat) + text@,
{
    let mut s = String::new();
    push_tag(&mut s, n);
    s.append(text);
    s
}

fn quoted_message(n: usize, text: &str, what: &[char]) -> (s: String)
    ensures
        s@ == line_tag(n as nat) + text@ + what@ + "'"@,
{
    let mut s = String::new();
    push_tag(&mut s, n);
    s.append(text);
    push_chars(&mut s, what);
    s.append("'");
    s
}

fn resolve_exec(arg: &[char], defines: &SymbolTable, labels: &SymbolTable) -> (r: Option<u8>)
    requires
        defines.wf(),
        labels.wf(),
    ensures
        r == resolve(arg@, defines@, labels@),
{
    match parse_unsigned_chars(arg, 10, 255) {
        Some(v) => Some(v as u8),
        None => {
            let up = upper_chars(arg);
            match defines.get(&up) {
                Some(v) => Some(v),
                None => labels.get(&up),
            }
        },
    }
}

fn unwrap_or_byte(o: Option<u8>, d: u8) -> (r: u8)
    ensures
        r == or_default(o, d),
{
    match o {
        Some(v) => v,
        None => d,
    }
}

proof fn lemma_code_words(code: Seq<char>, x: Seq<char>)
    requires
        code.len() > 0,
        code == trim(x),
    ensures
        words(code).len() > 0,
{
    crate::text::lemma_trim_start_len(x);
    crate::text::lemma_trim_end_len(crate::text::trim_start(x));
    assert(code[0] == crate::text::trim_start(x)[0]);
    assert(crate::text::trim_start(code) == code);
}

/// The size in bytes of an instruction with the (upper-case) mnemonic
/// `op` and `nargs` arguments, as the first pass counts it.
pub fn instr_size(op: &Vec<char>, nargs: usize) -> (len: u8)
    ensures
        len == instr_len(op@, nargs as nat),
{
    if chars_are(op, "BEEP") {
        3
    } else if chars_are(op, "SET") || chars_are(op, "JMP") || chars_are(op, "JZ") || chars_are(op, "JNZ")
        || chars_are(op, "CALL") || chars_are(op, "PUSH") || chars_are(op, "POP") {
        2
    } else if chars_are(op, "DRAW") && nargs >= 5 {
        6
    } else {
        1
    }
}

/// The second pass on one instruction line: the upper-case mnemonic
/// `op`, its arguments `args` and its line number `n`, with the constants
/// `defines` and the labels `labels`.  Its bytes are appended to
/// `bytecode` and its errors to `errors` (see `second_pass_line`).
pub fn emit_line(
    op: &Vec<char>,
    args: &Vec<Vec<char>>,
    n: usize,
    defines: &SymbolTable,
    labels: &SymbolTable,
    bytecode: &mut Vec<QuatByte>,
    errors: &mut Vec<String>,
)
    requires
        defines.wf(),
        labels.wf(),
    ensures
        (SecondPass { bytes: byte_values(final(bytecode)@), errors: texts(final(errors)@) }) == second_pass_line(
            (SecondPass { bytes: byte_values(old(bytecode)@), errors: texts(old(errors)@) }),
            (AsmLine { op: op@, args: args@.map_values(|a: Vec<char>| a@), line_num: n as nat }),
            defines@,
            labels@,
        ),
{
    let ghost l = AsmLine { op: op@, args: args@.map_values(|a: Vec<char>| a@), line_num: n as nat };
    let ghost old_bytes = byte_values(bytecode@);
    let ghost old_errors = texts(errors@);
    assert(forall|j: int| 0 <= j < args@.len() ==> args@[j]@ == l.args[j]);
        if chars_are(op, "NOP") {
            bytecode.push(QuatByte(0));
        } else if chars_are(op, "SET") {
            if args.len() < 2 {
                let m = line_message(n, "SET zahteva registar i vrednost");
                errors.push(m);
                assert(texts(errors@) =~= old_errors.push(m@));
            } else {
                let ru = upper_chars(&args[0]);
                let reg: u8 = if chars_are(&ru, "A") {
                    1
                } else if chars_are(&ru, "B") {
                    2
                } else {
                    0
                };
                if reg == 0 {
                    let m = quoted_message(n, "Nepoznat registar '", &args[0]);
                    errors.push(m);
                    assert(texts(errors@) =~= old_errors.push(m@));
                }
                let ghost e1 = texts(errors@);
                let v = resolve_exec(&args[1], &defines, labels);
                if v.is_none() {
                    let m = quoted_message(n, "Nepoznat simbol, labela ili vrednost '", &args[1]);
                    errors.push(m);
                    assert(texts(errors@) =~= e1.push(m@));
                }
                bytecode.push(QuatByte(reg));
                bytecode.push(QuatByte(unwrap_or_byte(v, 0)));
            }
        } else if chars_are(op, "ADD") {
            bytecode.push(QuatByte(3));
        } else if chars_are(op, "SUB") {
            bytecode.push(QuatByte(4));
        } else if chars_are(op, "JMP") {
            if args.len() == 0 {
                let m = line_message(n, "JMP zahteva ciljnu adresu ili labelu");
                errors.push(m);
                assert(texts(errors@) =~= old_errors.push(m@));
            } else {
                let v = resolve_exec(&args[0], &defines, labels);
                if v.is_none() {
                    let m = quoted_message(n, "Nepoznat simbol, labela ili vrednost '", &args[0]);
                    errors.push(m);
                    assert(texts(errors@) =~= old_errors.push(m@));
                }
                bytecode.push(QuatByte(5));
                bytecode.push(QuatByte(unwrap_or_byte(v, 0)));
            }
        } else if chars_are(op, "CLS") {
            bytecode.push(QuatByte(6));
        } else if chars_are(op, "DRAW") {
            if args.len() >= 5 {
                let x = unwrap_or_byte(resolve_exec(&args[0], &defines, labels), 0);
                let y = unwrap_or_byte(resolve_exec(&args[1], &defines, labels), 0);
                let w = unwrap_or_byte(resolve_exec(&args[2], &defines, labels), 10);
                let h = unwrap_or_byte(resolve_exec(&args[3], &defines, labels), 10);
                let c = unwrap_or_byte(resolve_exec(&args[4], &defines, labels), 14);
                bytecode.push(QuatByte(7));
                bytecode.push(QuatByte(x));
                bytecode.push(QuatByte(y));
                bytecode.push(QuatByte(w));
                bytecode.push(QuatByte(h));
                bytecode.push(QuatByte(c));
            } else {
                bytecode.push(QuatByte(8));
            }
        } else if chars_are(op, "BEEP") {
            let freq = if args.len() > 0 {
                unwrap_or_byte(resolve_exec(&args[0], &defines, labels), 100)
            } else {
                100
            };
            let dur = if args.len() > 1 {
                unwrap_or_byte(resolve_exec(&args[1], &defines, labels), 50)
            } else {
                50
            };
            bytecode.push(QuatByte(9));
            bytecode.push(QuatByte(freq));
            bytecode.push(QuatByte(dur));
        } else if chars_are(op, "HALT") {
            bytecode.push(QuatByte(15));
        } else {
            let m = quoted_message(n, "Nepoznata komanda '", op);
            errors.push(m);
            assert(texts(errors@) =~= old_errors.push(m@));
        }
    assert(byte_values(bytecode@) =~= second_pass_line(
        SecondPass { bytes: old_bytes, errors: old_errors },
        l,
        defines@,
        labels@,
    ).bytes);
    assert(texts(errors@) =~= second_pass_line(
        SecondPass { bytes: old_bytes, errors: old_errors },
        l,
        defines@,
        labels@,
    ).errors);
}

impl Assembler {
    /// An assembler holding the demo program, with empty output.
    pub fn new() -> (a: Assembler)
        ensures
            a.source_code@ == asm_demo_source(),
            a.compiled_bytecode@.len() == 0,
            a.label_table@ == Map::<Seq<char>, u8>::empty(),
            a.label_table.wf(),
            a.error_log@.len() == 0,
            a.status_message@ == "Asembler spreman."@,
            !a.show_hex,
            !a.auto_load_to_ram,
    {
        let sample_code = "// === QuatOS Demo Asemblerski Program ===\n// Crta kvadrat i daje zvučni signal\n\n%DEFINE COLOR_CYAN 11\n%DEFINE BEEP_FREQ 440\n\nstart:\n    CLS\n    SET A, 10\n    SET B, 15\n\ndraw_loop:\n    DRAW A, B, 20, 20, COLOR_CYAN\n    BEEP BEEP_FREQ, 150\n    ADD A, 5\n    JMP check_limit\n\ncheck_limit:\n    // Ako smo prešli poziciju 50, skoči na kraj\n    // U realnom sistemu ovde ide CMP / JZ\n    JMP end_prog\n\nend_prog:\n    BEEP 880, 300\n    NOP\n";
        Assembler {
            source_code: String::from_str(sample_code),
            compiled_bytecode: Vec::new(),
            label_table: SymbolTable::new(),
            error_log: Vec::new(),
            status_message: String::from_str("Asembler spreman."),
            show_hex: false,
            auto_load_to_ram: false,
        }
    }

    /// Compiles `source` in two passes.  The label table is left as the
    /// first pass built it and the error log holds the errors of the pass
    /// that failed (or of the second pass, which then had none).
    pub fn compile(&mut self, source: &str) -> (r: Result<Vec<QuatByte>, String>)
        ensures
            final(self).label_table.wf(),
            final(self).label_table@ == first_pass(lines(source@)).labels,
            texts(final(self).error_log@) == assemble_errors(source@),
            match assemble(source@) {
                Ok(bytes) => r is Ok && byte_values(r->Ok_0@) == bytes,
                Err(msg) => r is Err && r->Err_0@ == msg,
            },
            final(self).source_code == old(self).source_code,
            final(self).compiled_bytecode == old(self).compiled_bytecode,
            final(self).status_message == old(self).status_message,
            final(self).show_hex == old(self).show_hex,
            final(self).auto_load_to_ram == old(self).auto_load_to_ram,
    {
        self.error_log.clear();
        self.label_table.clear();
        let src = chars_of(source);
        let all = split_lines(&src);
        let ghost ls = lines(source@);
        let mut parsed: Vec<ExecLine> = Vec::new();
        let mut defines = SymbolTable::new();
        let mut current_address: u8 = 0;
        let mut idx: usize = 0;
        assert(all@.map_values(|l: Vec<char>| l@).take(0) =~= Seq::<Seq<char>>::empty());
        assert(texts(self.error_log@) =~= Seq::<Seq<char>>::empty());
        assert(exec_lines_view(parsed@) =~= Seq::<AsmLine>::empty());
        while idx < all.len()
            invariant
                idx <= all@.len(),
                all@.map_values(|l: Vec<char>| l@) == ls,
                ls == lines(source@),
                defines.wf(),
                self.label_table.wf(),
                ({
                    let fp = first_pass(ls.take(idx as int));
                    &&& exec_lines_view(parsed@) == fp.lines
                    &&& defines@ == fp.defines
                    &&& self.label_table@ == fp.labels
                    &&& texts(self.error_log@) == fp.errors
                    &&& current_address == fp.addr
                    &&& forall|j: int| 0 <= j < parsed@.len() ==> parsed@[j].line_num <= idx
                }),
                self.source_code == old(self).source_code,
                self.compiled_bytecode == old(self).compiled_bytecode,
                self.status_message == old(self).status_message,
                self.show_hex == old(self).show_hex,
                self.auto_load_to_ram == old(self).auto_load_to_ram,
            decreases all@.len() - idx,
        {
            let line_num = idx + 1;
            let ghost st = first_pass(ls.take(idx as int));
            let ghost raw = ls[idx as int];
            assert(ls.take(idx + 1).drop_last() =~= ls.take(idx as int));
            assert(ls.take(idx + 1).last() == raw);
            assert(all@[idx as int]@ == raw);
            let ghost old_errors = texts(self.error_log@);
            let ghost old_parsed = exec_lines_view(parsed@);
            let a = before_slashes(&all[idx]);
            let b = before_char(&a, ';');
            let code = trim_chars(&b);
            assert(code@ == code_of(raw));
            if code.len() == 0 {
                idx = idx + 1;
                continue;
            }
            if chars_start_with(&code, "%DEFINE") || chars_start_with(&code, "%define") {
                let parts = split_words(&code);
                assert(parts@.len() == words(code@).len());
                if parts.len() == 3 {
                    assert(parts@[1]@ == words(code@)[1]);
                    assert(parts@[2]@ == words(code@)[2]);
                    match parse_unsigned_chars(&parts[2], 10, 255) {
                        Some(v) => {
                            let name = upper_chars(&parts[1]);
                            defines.insert(&name, v as u8);
                        },
                        None => {
                            let m = line_message(line_num, "Nevaljala vrednost za %DEFINE");
                            self.error_log.push(m);
                            assert(texts(self.error_log@) =~= old_errors.push(m@));
                        },
                    }
                } else {
                    let m = line_message(line_num, "Sintaksa %DEFINE zahteva ime i u8 vrednost");
                    self.error_log.push(m);
                    assert(texts(self.error_log@) =~= old_errors.push(m@));
                }
                idx = idx + 1;
                continue;
            }
            if code[code.len() - 1] == ':' {
                let stripped = trim_end_chars_of(&code, ':');
                let t = trim_chars(&stripped);
                let label_name = upper_chars(&t);
                if label_name.len() == 0 {
                    let m = line_message(line_num, "Prazno ime labele");
                    self.error_log.push(m);
                    assert(texts(self.error_log@) =~= old_errors.push(m@));
                } else {
                    self.label_table.insert(&label_name, current_address);
                }
                idx = idx + 1;
                continue;
            }
            let parts = split_words(&code);
            proof {
                lemma_code_words(code@, b@);
            }
            assert(parts@.len() == words(code@).len());
            assert(parts@[0]@ == words(code@)[0]);
            let op = upper_chars(&parts[0]);
            let mut args: Vec<Vec<char>> = Vec::new();
            let mut k: usize = 1;
            while k < parts.len()
                invariant
                    1 <= k <= parts@.len(),
                    parts@.map_values(|w: Vec<char>| w@) == words(code@),
                    args@.map_values(|a: Vec<char>| a@) =~= words(code@).subrange(1, k as int).map_values(
                        |p: Seq<char>| arg_text(p),
                    ),
                decreases parts@.len() - k,
            {
                assert(parts@[k as int]@ == words(code@)[k as int]);
                let c1 = trim_chars_of(&parts[k], ',');
                let c2 = trim_chars(&c1);
                let ghost before = args@.map_values(|a: Vec<char>| a@);
                args.push(c2);
                assert(args@.map_values(|a: Vec<char>| a@) =~= before.push(c2@));
                assert(words(code@).subrange(1, k + 1).map_values(|p: Seq<char>| arg_text(p))
                    =~= words(code@).subrange(1, k as int).map_values(|p: Seq<char>| arg_text(p)).push(
                    arg_text(words(code@)[k as int]),
                ));
                k = k + 1;
            }
            assert(words(code@).subrange(1, parts@.len() as int) =~= words(code@).skip(1));
            let nargs = args.len();
            let len = instr_size(&op, nargs);
            let item = ExecLine { op, args, line_num };
            parsed.push(item);
            assert(exec_lines_view(parsed@) =~= old_parsed.push(item.view_line()));
            current_address = if current_address as u16 + len as u16 > 255 {
                255
            } else {
                current_address + len
            };
            idx = idx + 1;
        }
        assert(ls.take(all@.len() as int) =~= ls);
        if self.error_log.len() > 0 {
            return Err(String::from_str("Greške u prvom prolazu kompilacije."));
        }
        let ghost fp = first_pass(ls);
        let mut bytecode: Vec<QuatByte> = Vec::new();
        let mut i: usize = 0;
        assert(exec_lines_view(parsed@).take(0) =~= Seq::<AsmLine>::empty());
        assert(byte_values(bytecode@) =~= Seq::<u8>::empty());
        while i < parsed.len()
            invariant
                i <= parsed@.len(),
                exec_lines_view(parsed@) == fp.lines,
                defines.wf(),
                self.label_table.wf(),
                defines@ == fp.defines,
                self.label_table@ == fp.labels,
                ({
                    let sp = second_pass(fp.lines.take(i as int), fp.defines, fp.labels);
                    &&& byte_values(bytecode@) == sp.bytes
                    &&& texts(self.error_log@) == sp.errors
                }),
                self.source_code == old(self).source_code,
                self.compiled_bytecode == old(self).compiled_bytecode,
                self.status_message == old(self).status_message,
                self.show_hex == old(self).show_hex,
                self.auto_load_to_ram == old(self).auto_load_to_ram,
            decreases parsed@.len() - i,
        {
            let ghost l = fp.lines[i as int];
            assert(fp.lines.take(i + 1).drop_last() =~= fp.lines.take(i as int));
            assert(fp.lines.take(i + 1).last() == l);
            assert(parsed@[i as int].view_line() == l);
            emit_line(
                &parsed[i].op,
                &parsed[i].args,
                parsed[i].line_num,
                &defines,
                &self.label_table,
                &mut bytecode,
                &mut self.error_log,
            );
            i = i + 1;
        }
        assert(fp.lines.take(parsed@.len() as int) =~= fp.lines);
        if self.error_log.len() > 0 {
            Err(String::from_str("Greške tokom generisanja bajtkoda."))
        } else {
            Ok(bytecode)
        }
    }
}

/// RAM after the bytecode `code` is copied to address 0 (what does not
/// fit in 256 bytes is dropped).
pub open spec fn loaded_ram(ram: Seq<QuatByte>, code: Seq<u8>) -> Seq<QuatByte> {
    Seq::new(ram.len(), |i: int| if i < code.len() { QuatByte(code[i]) } else { ram[i] })
}

/// Copies `code` to RAM from address 0, as far as it fits.
fn copy_to_ram(code: &Vec<QuatByte>, kernel: &mut QuatKernel)
    ensures
        final(kernel).ram@ == loaded_ram(old(kernel).ram@, byte_values(code@)),
        final(kernel).vram == old(kernel).vram,
        final(kernel).reg_a == old(kernel).reg_a,
        final(kernel).reg_b == old(kernel).reg_b,
        final(kernel).pc == old(kernel).pc,
        final(kernel).is_running == old(kernel).is_running,
        final(kernel).logs == old(kernel).logs,
{
    let mut i: usize = 0;
    while i < code.len()
        invariant
            i <= code@.len(),
            forall|k: int|
                0 <= k < 256 ==> #[trigger] kernel.ram@[k] == (if k < i && k < code@.len() {
                    code@[k]
                } else {
                    old(kernel).ram@[k]
                }),
            kernel.vram == old(kernel).vram,
            kernel.reg_a == old(kernel).reg_a,
            kernel.reg_b == old(kernel).reg_b,
            kernel.pc == old(kernel).pc,
            kernel.is_running == old(kernel).is_running,
            kernel.logs == old(kernel).logs,
        decreases code@.len() - i,
    {
        if i < 256 {
            kernel.ram[i] = code[i];
        }
        i = i + 1;
    }
    assert forall|k: int| 0 <= k < 256 implies #[trigger] kernel.ram@[k] == loaded_ram(
        old(kernel).ram@,
        byte_values(code@),
    )[k] by {
        if k < code@.len() {
            assert(byte_values(code@)[k] == code@[k].0);
        }
    }
    assert(kernel.ram@ =~= loaded_ram(old(kernel).ram@, byte_values(code@)));
}

impl Assembler {
    /// The compile button: compiles the source; on success keeps the
    /// bytecode, reports its size and, with auto-load on, copies it to
    /// RAM; on failure reports the failure.
    pub fn compile_source(&mut self, kernel: &mut QuatKernel)
        ensures
            final(self).source_code == old(self).source_code,
            final(self).auto_load_to_ram == old(self).auto_load_to_ram,
            texts(final(self).error_log@) == assemble_errors(old(self).source_code@),
            match assemble(old(self).source_code@) {
                Ok(bytes) => {
                    &&& byte_values(final(self).compiled_bytecode@) == bytes
                    &&& final(self).status_message@ == "Uspeshno! Generisano "@ + crate::text::dec_str(
                        bytes.len(),
                    ) + " QuatByte-ova."@ + (if old(self).auto_load_to_ram {
                        " Učitano direktno u RAM!"@
                    } else {
                        Seq::empty()
                    })
                    &&& final(kernel).ram@ == (if old(self).auto_load_to_ram {
                        loaded_ram(old(kernel).ram@, bytes)
                    } else {
                        old(kernel).ram@
                    })
                },
                Err(msg) => {
                    &&& final(self).compiled_bytecode == old(self).compiled_bytecode
                    &&& final(self).status_message@ == "Kompilacija neuspešna: "@ + msg
                    &&& final(kernel).ram == old(kernel).ram
                },
            },
            final(self).label_table.wf(),
            final(self).label_table@ == first_pass(lines(old(self).source_code@)).labels,
            final(self).show_hex == old(self).show_hex,
            final(kernel).vram == old(kernel).vram,
            final(kernel).pc == old(kernel).pc,
            final(kernel).reg_a == old(kernel).reg_a,
            final(kernel).reg_b == old(kernel).reg_b,
            final(kernel).is_running == old(kernel).is_running,
            final(kernel).logs == old(kernel).logs,
    {
        let src = self.source_code.clone();
        match self.compile(src.as_str()) {
            Ok(bc) => {
                self.compiled_bytecode = bc;
                let mut m = String::from_str("Uspeshno! Generisano ");
                crate::text::push_dec(&mut m, self.compiled_bytecode.len() as u64);
                m.append(" QuatByte-ova.");
                if self.auto_load_to_ram {
                    copy_to_ram(&self.compiled_bytecode, kernel);
                    m.append(" Učitano direktno u RAM!");
                } else {
                    assert(m@ =~= m@ + Seq::<char>::empty());
                }
                self.status_message = m;
            },
            Err(err) => {
                let mut m = String::from_str("Kompilacija neuspešna: ");
                m.append(err.as_str());
                self.status_message = m;
            },
        }
    }

    /// The load button: copies the bytecode to RAM from address 0, or
    /// reports that there is none.
    pub fn load_to_ram(&mut self, kernel: &mut QuatKernel)
        ensures
            old(self).compiled_bytecode@.len() == 0 ==> {
                &&& final(self).status_message@ == "Nema kompajliranog bajtkoda za učitavanje!"@
                &&& *final(kernel) == *old(kernel)
            },
            old(self).compiled_bytecode@.len() > 0 ==> {
                &&& final(self).status_message@ == "Učitano "@ + crate::text::dec_str(
                    old(self).compiled_bytecode@.len(),
                ) + " bajtova na adresu 0x00 u RAM-u."@
                &&& final(kernel).ram@ == loaded_ram(old(kernel).ram@, byte_values(old(self).compiled_bytecode@))
            },
            final(self).compiled_bytecode == old(self).compiled_bytecode,
            final(self).source_code == old(self).source_code,
            final(self).label_table == old(self).label_table,
            final(self).error_log == old(self).error_log,
            final(self).show_hex == old(self).show_hex,
            final(self).auto_load_to_ram == old(self).auto_load_to_ram,
            final(kernel).vram == old(kernel).vram,
            final(kernel).pc == old(kernel).pc,
            final(kernel).reg_a == old(kernel).reg_a,
            final(kernel).reg_b == old(kernel).reg_b,
            final(kernel).is_running == old(kernel).is_running,
            final(kernel).logs == old(kernel).logs,
    {
        if self.compiled_bytecode.len() == 0 {
            self.status_message = String::from_str("Nema kompajliranog bajtkoda za učitavanje!");
        } else {
            copy_to_ram(&self.compiled_bytecode, kernel);
            let mut m = String::from_str("Učitano ");
            crate::text::push_dec(&mut m, self.compiled_bytecode.len() as u64);
            m.append(" bajtova na adresu 0x00 u RAM-u.");
            self.status_message = m;
        }
    }

    /// The clear button: source, bytecode and errors are emptied.
    pub fn clear_all(&mut self)
        ensures
            final(self).source_code@.len() == 0,
            final(self).compiled_bytecode@.len() == 0,
            final(self).error_log@.len() == 0,
            final(self).status_message@ == "Sadržaj očišćen."@,
            final(self).auto_load_to_ram == old(self).auto_load_to_ram,
            final(self).show_hex == old(self).show_hex,
            final(self).label_table == old(self).label_table,
    {
        self.source_code = String::new();
        self.compiled_bytecode.clear();
        self.error_log.clear();
        self.status_message = String::from_str("Sadržaj očišćen.");
    }
}

} // verus!
