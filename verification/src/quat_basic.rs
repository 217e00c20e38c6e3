//! QuatBASIC: a line-numbered BASIC with PRINT, CLS, BEEP, PSET, LET and
//! GOTO, edited and run from a command line.
//!
//! Program lines, the command line, the statement decoder and the run's
//! control flow live here.  Variables hold floating-point values and BEEP
//! drives the sound card, so the caller keeps the variable table and
//! finishes the statements that touch them (see `BasicStatement`).

use vstd::prelude::*;
use std::collections::BTreeMap;
use vstd::std_specs::iter::IteratorSpec;
use vstd::std_specs::cmp::OrdSpec;
use crate::kernel::texts;
use crate::quat_vga::{QuatVGA, vga_wf, with_pixel};
use crate::text::{
    chars_of, string_of, trim, trim_chars, words, split_words, upper_text, upper_chars, chars_are,
    starts_with, chars_start_with, parse_unsigned, parse_unsigned_chars, dec_str, zero_pad, push_dec,
    push_chars, push_radix,
};

verus! {

broadcast use {vstd::std_specs::btree::group_btree_axioms, vstd::laws_cmp::group_laws_cmp};

/// `ks` lists the line numbers of `m` in increasing order.
pub open spec fn in_order(ks: Seq<usize>, m: Map<usize, String>) -> bool {
    &&& forall|i: int, j: int| 0 <= i < j < ks.len() ==> ks[i] < ks[j]
    &&& forall|k: usize| m.dom().contains(k) <==> ks.contains(k)
}

/// The line numbers of `lines`, in increasing order.
/// `s` without its ASCII spaces (`str::replace(" ", "")`).
pub open spec fn without_spaces(s: Seq<char>) -> Seq<char>
    decreases s.len(),
{
    if s.len() == 0 {
        Seq::empty()
    } else if s.last() == ' ' {
        without_spaces(s.drop_last())
    } else {
        without_spaces(s.drop_last()).push(s.last())
    }
}

/// The pieces of `s` between commas (`str::split(',')`); there is always
/// at least one.
pub open spec fn comma_pieces(s: Seq<char>) -> Seq<Seq<char>>
    decreases s.len(),
{
    if s.len() == 0 {
        seq![Seq::empty()]
    } else {
        let r = comma_pieces(s.drop_last());
        if s.last() == ',' {
            r.push(Seq::empty())
        } else {
            r.update(r.len() - 1, r.last().push(s.last()))
        }
    }
}

/// The characters after the first `n` bytes of the UTF-8 form of `s`
/// (`&s[n..]`).
pub open spec fn byte_tail(s: Seq<char>, n: int) -> Seq<char> {
    let b = vstd::utf8::encode_utf8(s);
    vstd::utf8::decode_utf8(b.subrange(n, b.len() as int))
}

/// Byte `n` of the UTF-8 form of `s` starts a character (or ends the
/// text), so `&s[n..]` is defined.
pub open spec fn cuts_at(s: Seq<char>, n: int) -> bool {
    vstd::utf8::is_char_boundary(vstd::utf8::encode_utf8(s), n)
}

/// The length of the UTF-8 form of `s` (`str::len`).
pub open spec fn byte_len(s: Seq<char>) -> int {
    vstd::utf8::encode_utf8(s).len() as int
}

/// A statement, decoded.  The ones that read or write variables
/// (`PrintValue`, `Assign`) or make a sound (`Beep`) are finished by the
/// caller, which holds the variables and the sound card; `Goto` is handed
/// to the run.
#[derive(Clone, Debug)]
pub enum BasicStatement {
    /// A blank line, a remark, or a statement that does nothing.
    Nothing,
    /// `PRINT "text"`: the text between the quotes.
    PrintText(String),
    /// `PRINT x`: the value of variable `x` when it has one, else `x` itself.
    PrintValue(String),
    /// `CLS`: clears the console and the screen.
    Cls,
    /// `BEEP f, ms`: the frequency as written (440 Hz where it does not
    /// read as a number) and the length in milliseconds (200 by default).
    Beep(String, u64),
    /// `PSET x, y, c`: a pixel of the screen.
    Pset(usize, usize, u8),
    /// `LET x = v` or `x = v`: the variable and the value as written (0
    /// where it does not read as a number).
    Assign(String, String),
    /// `GOTO n`.
    Goto(usize),
    /// An unknown command, upper-cased.
    Syntax(String),
}

/// The number in `s` as `str::parse` reads it, or `default`.
pub open spec fn number_or(s: Seq<char>, max: nat, default: nat) -> nat {
    match parse_unsigned(s, 10, max) {
        Some(v) => v,
        None => default,
    }
}

/// The upper-cased command word of the trimmed line `t`.
pub open spec fn command_of(t: Seq<char>) -> Seq<char> {
    upper_text(words(t)[0])
}

/// The argument of a `PRINT` in the trimmed line `t`.
pub open spec fn print_arg(t: Seq<char>) -> Seq<char> {
    trim(byte_tail(t, 6))
}

/// The comma-separated arguments of a `BEEP` or `PSET` in the trimmed
/// line `t`.
pub open spec fn call_args(t: Seq<char>) -> Seq<Seq<char>> {
    comma_pieces(without_spaces(byte_tail(t, 4)))
}

/// The line `code` cannot be executed: slicing it at a byte offset that
/// splits a character, or a `PRINT` whose argument is a lone quote.
pub open spec fn breaks(code: Seq<char>) -> bool {
    let t = trim(code);
    let cmd = command_of(t);
    &&& t.len() > 0
    &&& !starts_with(t, "REM"@)
    &&& if cmd == "PRINT"@ {
        byte_len(t) > 6 && (!cuts_at(t, 6) || print_arg(t) == seq!['"'])
    } else if cmd == "BEEP"@ || cmd == "PSET"@ {
        !cuts_at(t, 4)
    } else {
        false
    }
}

/// `st` is what the line `code` says (for a line that does not break).
pub open spec fn decoded(code: Seq<char>, st: BasicStatement) -> bool {
    let t = trim(code);
    let parts = words(t);
    let cmd = command_of(t);
    if t.len() == 0 || starts_with(t, "REM"@) {
        st is Nothing
    } else if cmd == "PRINT"@ {
        if byte_len(t) > 6 {
            let arg = print_arg(t);
            if arg.len() > 0 && arg[0] == '"' && arg.last() == '"' {
                st matches BasicStatement::PrintText(x) && x@ == arg.subrange(1, arg.len() - 1)
            } else {
                st matches BasicStatement::PrintValue(x) && x@ == arg
            }
        } else {
            st is Nothing
        }
    } else if cmd == "CLS"@ {
        st is Cls
    } else if cmd == "BEEP"@ {
        let a = call_args(t);
        st matches BasicStatement::Beep(f, ms) && f@ == a[0] && ms == (if a.len() > 1 {
            number_or(a[1], u64::MAX as nat, 200)
        } else {
            200
        })
    } else if cmd == "PSET"@ {
        let a = call_args(t);
        if a.len() >= 3 {
            st matches BasicStatement::Pset(x, y, c) && x == number_or(a[0], usize::MAX as nat, 0) && y
                == number_or(a[1], usize::MAX as nat, 0) && c == number_or(a[2], 255, 15)
        } else {
            st is Nothing
        }
    } else if cmd == "LET"@ {
        if parts.len() >= 4 && parts[2] == "="@ {
            st matches BasicStatement::Assign(n, v) && n@ == parts[1] && v@ == parts[3]
        } else {
            st is Nothing
        }
    } else if cmd == "GOTO"@ {
        if parts.len() >= 2 && parse_unsigned(parts[1], 10, usize::MAX as nat) is Some {
            st matches BasicStatement::Goto(n) && n == parse_unsigned(parts[1], 10, usize::MAX as nat)->0
        } else {
            st is Nothing
        }
    } else if parts.len() >= 3 && parts[1] == "="@ {
        st matches BasicStatement::Assign(n, v) && n@ == parts[0] && v@ == parts[2]
    } else {
        st matches BasicStatement::Syntax(c) && c@ == cmd
    }
}

/// The command words are told apart by their letters.
proof fn lemma_commands_differ()
    ensures
        "PRINT"@ != "CLS"@,
        "PRINT"@ != "BEEP"@,
        "PRINT"@ != "PSET"@,
        "PRINT"@ != "LET"@,
        "PRINT"@ != "GOTO"@,
        "CLS"@ != "BEEP"@,
        "CLS"@ != "PSET"@,
        "BEEP"@ != "PSET"@,
        "LET"@ != "BEEP"@,
        "LET"@ != "PSET"@,
        "GOTO"@ != "BEEP"@,
        "GOTO"@ != "PSET"@,
        "LET"@ != "CLS"@,
        "GOTO"@ != "CLS"@,
        "GOTO"@ != "LET"@,
{
    reveal_strlit("PRINT");
    reveal_strlit("CLS");
    reveal_strlit("BEEP");
    reveal_strlit("PSET");
    reveal_strlit("LET");
    reveal_strlit("GOTO");
    assert("PRINT"@.len() != "CLS"@.len());
    assert("PRINT"@.len() != "BEEP"@.len());
    assert("PRINT"@.len() != "PSET"@.len());
    assert("PRINT"@.len() != "LET"@.len());
    assert("PRINT"@.len() != "GOTO"@.len());
    assert("CLS"@.len() != "BEEP"@.len());
    assert("CLS"@.len() != "PSET"@.len());
    assert("BEEP"@[0] != "PSET"@[0]);
    assert("LET"@.len() != "BEEP"@.len());
    assert("LET"@.len() != "PSET"@.len());
    assert("GOTO"@[0] != "BEEP"@[0]);
    assert("GOTO"@[0] != "PSET"@[0]);
    assert("LET"@[0] != "CLS"@[0]);
    assert("GOTO"@.len() != "CLS"@.len());
    assert("GOTO"@.len() != "LET"@.len());
}

/// The characters of `cs` other than ASCII spaces.
fn drop_spaces(cs: &[char]) -> (r: Vec<char>)
    ensures
        r@ == without_spaces(cs@),
{
    let mut r: Vec<char> = Vec::new();
    let mut i: usize = 0;
    while i < cs.len()
        invariant
            i <= cs@.len(),
            r@ == without_spaces(cs@.take(i as int)),
        decreases cs@.len() - i,
    {
        assert(cs@.take(i + 1).drop_last() =~= cs@.take(i as int));
        if cs[i] != ' ' {
            r.push(cs[i]);
        }
        i = i + 1;
    }
    assert(cs@.take(cs@.len() as int) =~= cs@);
    r
}

proof fn lemma_pieces_nonempty(s: Seq<char>)
    ensures
        comma_pieces(s).len() >= 1,
    decreases s.len(),
{
    if s.len() > 0 {
        lemma_pieces_nonempty(s.drop_last());
    }
}

/// The pieces of `cs` between commas.
fn split_commas(cs: &[char]) -> (ps: Vec<Vec<char>>)
    ensures
        ps@.map_values(|p: Vec<char>| p@) == comma_pieces(cs@),
{
    let mut ps: Vec<Vec<char>> = Vec::new();
    let mut cur: Vec<char> = Vec::new();
    let mut i: usize = 0;
    while i < cs.len()
        invariant
            i <= cs@.len(),
            comma_pieces(cs@.take(i as int)).len() >= 1,
            ps@.map_values(|p: Vec<char>| p@).push(cur@) == comma_pieces(cs@.take(i as int)),
        decreases cs@.len() - i,
    {
        proof {
            lemma_pieces_nonempty(cs@.take(i + 1));
        }
        let ghost before = comma_pieces(cs@.take(i as int));
        assert(cs@.take(i + 1).drop_last() =~= cs@.take(i as int));
        if cs[i] == ',' {
            let done = cur;
            ps.push(done);
            cur = Vec::new();
            assert(ps@.map_values(|p: Vec<char>| p@).push(cur@) =~= before.push(Seq::empty()));
        } else {
            cur.push(cs[i]);
            assert(ps@.map_values(|p: Vec<char>| p@).push(cur@) =~= before.update(
                before.len() - 1,
                before.last().push(cs@[i as int]),
            ));
        }
        i = i + 1;
    }
    assert(cs@.take(cs@.len() as int) =~= cs@);
    ps.push(cur);
    ps
}

/// The number in `cs` (at most `max`), or `default`.
fn read_number(cs: &[char], max: u64, default: u64) -> (r: u64)
    ensures
        r == number_or(cs@, max as nat, default as nat),
{
    match parse_unsigned_chars(cs, 10, max) {
        Some(v) => v,
        None => default,
    }
}

/// The characters after the first `n` bytes of the UTF-8 form of `t`, or
/// `None` where byte `n` splits a character.
fn tail_from(t: &[char], n: usize) -> (r: Option<Vec<char>>)
    ensures
        r is Some <==> cuts_at(t@, n as int),
        r matches Some(v) ==> v@ == byte_tail(t@, n as int),
{
    let ts = string_of(t);
    let s = ts.as_str();
    if !s.is_char_boundary(n) {
        return None;
    }
    let (_, rest) = s.split_at(n);
    proof {
        vstd::utf8::encode_utf8_decode_utf8(rest@);
    }
    Some(chars_of(rest))
}

/// Decodes the line `code`; `None` where it cannot be executed (see
/// `breaks`).
pub fn decode_statement(code: &str) -> (r: Option<BasicStatement>)
    ensures
        r is None <==> breaks(code@),
        r matches Some(st) ==> decoded(code@, st),
{
    let cs = chars_of(code);
    let t = trim_chars(&cs);
    if t.len() == 0 || chars_start_with(&t, "REM") {
        return Some(BasicStatement::Nothing);
    }
    let parts = split_words(&t);
    let ghost pv = parts@.map_values(|w: Vec<char>| w@);
    proof {
        crate::quat_dos::lemma_trim_first(cs@);
        assert(pv[0] == parts@[0]@);
    }
    let cmd = upper_chars(&parts[0]);
    proof {
        lemma_commands_differ();
    }
    if chars_are(&cmd, "PRINT") {
        let ts = string_of(&t);
        if ts.as_str().as_bytes().len() <= 6 {
            return Some(BasicStatement::Nothing);
        }
        let rest = match tail_from(&t, 6) {
            Some(v) => v,
            None => {
                return None;
            },
        };
        let arg = trim_chars(&rest);
        let n = arg.len();
        if n > 0 && arg[0] == '"' && arg[n - 1] == '"' {
            if n == 1 {
                assert(arg@ =~= seq!['"']);
                return None;
            }
            let inner = string_of(&arg[1..n - 1]);
            return Some(BasicStatement::PrintText(inner));
        }
        proof {
            if arg@ == seq!['"'] {
                assert(arg@[0] == '"');
            }
        }
        return Some(BasicStatement::PrintValue(string_of(&arg)));
    }
    if chars_are(&cmd, "CLS") {
        return Some(BasicStatement::Cls);
    }
    if chars_are(&cmd, "BEEP") || chars_are(&cmd, "PSET") {
        let rest = match tail_from(&t, 4) {
            Some(v) => v,
            None => {
                return None;
            },
        };
        let packed = drop_spaces(&rest);
        let args = split_commas(&packed);
        let ghost av = args@.map_values(|p: Vec<char>| p@);
        proof {
            lemma_pieces_nonempty(packed@);
        }
        if chars_are(&cmd, "BEEP") {
            assert(av[0] == args@[0]@);
            let freq = string_of(&args[0]);
            let ms = if args.len() > 1 {
                assert(av[1] == args@[1]@);
                read_number(&args[1], u64::MAX, 200)
            } else {
                200
            };
            return Some(BasicStatement::Beep(freq, ms));
        }
        if args.len() >= 3 {
            assert(av[0] == args@[0]@);
            assert(av[1] == args@[1]@);
            assert(av[2] == args@[2]@);
            let x = read_number(&args[0], usize::MAX as u64, 0) as usize;
            let y = read_number(&args[1], usize::MAX as u64, 0) as usize;
            let c = read_number(&args[2], 255, 15) as u8;
            return Some(BasicStatement::Pset(x, y, c));
        }
        return Some(BasicStatement::Nothing);
    }
    if chars_are(&cmd, "LET") {
        if parts.len() >= 4 && chars_are(&parts[2], "=") {
            assert(pv[1] == parts@[1]@);
            assert(pv[3] == parts@[3]@);
            return Some(BasicStatement::Assign(string_of(&parts[1]), string_of(&parts[3])));
        }
        return Some(BasicStatement::Nothing);
    }
    if chars_are(&cmd, "GOTO") {
        if parts.len() >= 2 {
            assert(pv[1] == parts@[1]@);
            match parse_unsigned_chars(&parts[1], 10, usize::MAX as u64) {
                Some(v) => {
                    return Some(BasicStatement::Goto(v as usize));
                },
                None => {},
            }
        }
        return Some(BasicStatement::Nothing);
    }
    if parts.len() >= 3 && chars_are(&parts[1], "=") {
        assert(pv[0] == parts@[0]@);
        assert(pv[2] == parts@[2]@);
        return Some(BasicStatement::Assign(string_of(&parts[0]), string_of(&parts[2])));
    }
    Some(BasicStatement::Syntax(string_of(&cmd)))
}

/// Line numbers are compared as integers are.
proof fn lemma_keys_ordered()
    ensures
        vstd::std_specs::btree::key_obeys_cmp_spec::<usize>(),
{
}

/// The keys that a map's key iterator yields come in increasing order and
/// are exactly the map's keys.
proof fn lemma_keys_in_order(lines: &BTreeMap<usize, String>, all: Seq<&usize>)
    requires
        all == vstd::std_specs::btree::spec_keys_iter(lines).remaining(),
    ensures
        forall|i: int, j: int| 0 <= i < j < all.len() ==> *all[i] < *all[j],
        forall|k: usize| lines@.dom().contains(k) <==> all.unref().contains(k),
{
    broadcast use vstd::std_specs::btree::axiom_spec_keys_iter;
    assert(vstd::laws_cmp::obeys_cmp::<usize>());
    assert(vstd::laws_cmp::obeys_cmp::<&usize>());
    assert(vstd::std_specs::btree::increasing_seq(all));
    assert forall|i: int, j: int| 0 <= i < j < all.len() implies *all[i] < *all[j] by {
        let a: &usize = all[i];
        let b: &usize = all[j];
        assert(OrdSpec::cmp_spec(&a, &b) is Less);
    }
    assert forall|k: usize| lines@.dom().contains(k) <==> all.unref().contains(k) by {
        if lines@.dom().contains(k) {
            assert(all.unref().to_set().contains(k));
        }
        if all.unref().contains(k) {
            assert(all.unref().to_set().contains(k));
        }
    }
}

/// The line numbers of `lines`, in increasing order.
pub fn line_numbers(lines: &BTreeMap<usize, String>) -> (ks: Vec<usize>)
    ensures
        in_order(ks@, lines@),
{
    proof {
        lemma_keys_ordered();
    }
    let mut ks: Vec<usize> = Vec::new();
    let keys = lines.keys();
    let ghost all = keys.remaining();
    proof {
        lemma_keys_in_order(lines, all);
    }
    for k in it: keys
        invariant
            it.seq() == all,
            ks@ == all.take(it.index() as int).unref(),
    {
        ks.push(*k);
        assert(all.take(it.index() + 1).unref() =~= all.take(it.index() as int).unref().push(*k));
    }
    assert(ks@ =~= all.unref());
    ks
}

/// The command-line interpreter: the program, the command line and the
/// console.
pub struct QuatBASIC {
    pub lines: BTreeMap<usize, String>,
    pub input_line: String,
    pub console_output: Vec<String>,
    pub is_running: bool,
    pub status_msg: String,
}

/// What the command line asks of the caller once it has been read.
#[derive(Clone, Debug)]
pub enum BasicCommand {
    /// Nothing more to do.
    Done,
    /// `RUN`: clear the variables and run the program.
    Run,
    /// `NEW`: clear the variables.
    New,
    /// A statement in direct mode, to be finished as in a run.
    Statement(BasicStatement),
}

/// The program's lines as text.
pub open spec fn program(m: Map<usize, String>) -> Map<usize, Seq<char>> {
    m.map_values(|s: String| s@)
}

/// The demo program: a remark, CLS, three PRINTs, two BEEPs and a PSET.
pub open spec fn demo_program() -> Map<usize, Seq<char>> {
    map![
        10usize => "REM *** QuatBASIC Demo Program ***"@,
        20usize => "CLS"@,
        30usize => "PRINT \"Pokrecem QuatBASIC Hardverski Test...\""@,
        40usize => "BEEP 440, 150"@,
        50usize => "BEEP 880, 200"@,
        60usize => "PRINT \"Crtam po QuatVGA VRAM-u...\""@,
        70usize => "PSET 160, 100, 14"@,
        80usize => "PRINT \"Gotovo! Ready.\""@,
    ]
}

/// The console after statement `st`: PRINT of a text adds it, CLS clears
/// the console, an unknown command is reported.
pub open spec fn console_after(console: Seq<Seq<char>>, st: BasicStatement) -> Seq<Seq<char>> {
    match st {
        BasicStatement::PrintText(x) => console.push(x@),
        BasicStatement::Cls => Seq::empty(),
        BasicStatement::Syntax(c) => console.push("Syntax error: "@ + c@),
        _ => console,
    }
}

/// The screen after statement `st`: CLS paints it with colour 0, PSET sets
/// one pixel.
pub open spec fn screen_after(vram: Seq<u8>, st: BasicStatement) -> Seq<u8> {
    match st {
        BasicStatement::Cls => Seq::new(vram.len(), |i: int| 0u8),
        BasicStatement::Pset(x, y, c) => with_pixel(vram, x as int, y as int, c),
        _ => vram,
    }
}

/// The listing line of line `n`: the number in four digits, then the code.
pub open spec fn listing_line(n: usize, code: Seq<char>) -> Seq<char> {
    zero_pad(dec_str(n as nat), 4) + " "@ + code
}

/// The listing of the lines `ks` of `m`.
pub open spec fn listing(ks: Seq<usize>, m: Map<usize, String>) -> Seq<Seq<char>> {
    ks.map_values(|k: usize| listing_line(k, m[k]@))
}

/// The error line of a `GOTO` to a line that does not exist.
pub open spec fn missing_line(t: usize) -> Seq<char> {
    "ERR: Linija "@ + dec_str(t as nat) + " ne postoji!"@
}

/// `i` is the first position of `t` in `ks`.
pub open spec fn first_at(ks: Seq<usize>, t: usize, i: int) -> bool {
    0 <= i < ks.len() && ks[i] == t && forall|j: int| 0 <= j < i ==> ks[j] != t
}

impl QuatBASIC {
    /// The demo program loaded, an empty command line and console.
    pub fn new() -> (b: QuatBASIC)
        ensures
            program(b.lines@) == demo_program(),
            b.input_line@.len() == 0,
            b.console_output@.len() == 0,
            !b.is_running,
            b.status_msg@ == "QuatBASIC v1.0 Ready."@,
    {
        let mut b = QuatBASIC {
            lines: BTreeMap::new(),
            input_line: String::new(),
            console_output: Vec::new(),
            is_running: false,
            status_msg: String::from_str("QuatBASIC v1.0 Ready."),
        };
        b.load_demo_program();
        b
    }

    /// Replaces the program with the demo program.
    pub fn load_demo_program(&mut self)
        ensures
            program(final(self).lines@) == demo_program(),
            final(self).input_line == old(self).input_line,
            final(self).console_output == old(self).console_output,
            final(self).is_running == old(self).is_running,
            final(self).status_msg == old(self).status_msg,
    {
        self.lines.clear();
        self.lines.insert(10, String::from_str("REM *** QuatBASIC Demo Program ***"));
        self.lines.insert(20, String::from_str("CLS"));
        self.lines.insert(30, String::from_str("PRINT \"Pokrecem QuatBASIC Hardverski Test...\""));
        self.lines.insert(40, String::from_str("BEEP 440, 150"));
        self.lines.insert(50, String::from_str("BEEP 880, 200"));
        self.lines.insert(60, String::from_str("PRINT \"Crtam po QuatVGA VRAM-u...\""));
        self.lines.insert(70, String::from_str("PSET 160, 100, 14"));
        self.lines.insert(80, String::from_str("PRINT \"Gotovo! Ready.\""));
        assert(program(self.lines@) =~= demo_program());
    }

    /// Executes the line `code`: PRINT of a text, CLS, PSET and unknown
    /// commands take effect here; the statement is handed back for the
    /// caller to finish (see `BasicStatement`).  `None`, with nothing
    /// changed, where the line cannot be executed (see `breaks`).
    pub fn execute_line(&mut self, code: &str, vga: &mut QuatVGA) -> (r: Option<BasicStatement>)
        requires
            vga_wf(*old(vga)),
        ensures
            r is None <==> breaks(code@),
            r is None ==> final(self).console_output == old(self).console_output && final(vga).vram
                == old(vga).vram,
            r matches Some(st) ==> {
                &&& decoded(code@, st)
                &&& texts(final(self).console_output@) == console_after(texts(old(self).console_output@), st)
                &&& final(vga).vram@ == screen_after(old(vga).vram@, st)
            },
            vga_wf(*final(vga)),
            final(vga).palette == old(vga).palette,
            final(vga).demo_mode == old(vga).demo_mode,
            final(vga).frame_counter == old(vga).frame_counter,
            final(self).lines == old(self).lines,
            final(self).input_line == old(self).input_line,
            final(self).is_running == old(self).is_running,
            final(self).status_msg == old(self).status_msg,
    {
        let r = decode_statement(code);
        match &r {
            Some(BasicStatement::PrintText(x)) => {
                let ghost before = texts(self.console_output@);
                self.console_output.push(x.clone());
                assert(texts(self.console_output@) =~= before.push(x@));
            },
            Some(BasicStatement::Cls) => {
                self.console_output.clear();
                assert(texts(self.console_output@) =~= Seq::<Seq<char>>::empty());
                vga.clear(0);
                assert(vga.vram@ =~= Seq::new(old(vga).vram@.len(), |i: int| 0u8));
            },
            Some(BasicStatement::Pset(x, y, c)) => {
                vga.put_pixel(*x, *y, *c);
            },
            Some(BasicStatement::Syntax(c)) => {
                let mut m = String::from_str("Syntax error: ");
                m.append(c.as_str());
                let ghost before = texts(self.console_output@);
                self.console_output.push(m);
                assert(texts(self.console_output@) =~= before.push("Syntax error: "@ + c@));
            },
            _ => {},
        }
        r
    }
}

impl QuatBASIC {
    /// Appends the listing of the program to the console: a header, then
    /// each line in order of its number.
    fn list_program(&mut self)
        ensures
            exists|ks: Seq<usize>|
                #![trigger in_order(ks, old(self).lines@)]
                in_order(ks, old(self).lines@) && texts(final(self).console_output@) == texts(
                    old(self).console_output@,
                ).push("--- PROGRAM LISTING ---"@) + listing(ks, old(self).lines@),
            final(self).lines == old(self).lines,
            final(self).input_line == old(self).input_line,
            final(self).is_running == old(self).is_running,
            final(self).status_msg == old(self).status_msg,
    {
        let ghost head = texts(self.console_output@).push("--- PROGRAM LISTING ---"@);
        self.console_output.push(String::from_str("--- PROGRAM LISTING ---"));
        let ks = line_numbers(&self.lines);
        let mut i: usize = 0;
        while i < ks.len()
            invariant
                i <= ks@.len(),
                in_order(ks@, self.lines@),
                self.lines == old(self).lines,
                self.input_line == old(self).input_line,
                self.is_running == old(self).is_running,
                self.status_msg == old(self).status_msg,
                texts(self.console_output@) == head + listing(ks@.take(i as int), self.lines@),
            decreases ks@.len() - i,
        {
            let k = ks[i];
            assert(ks@.contains(k));
            let code = match self.lines.get(&k) {
                Some(c) => c,
                None => {
                    assert(false);
                    return;
                },
            };
            let mut line = String::new();
            push_radix(&mut line, k as u64, 10, 4);
            line.append(" ");
            line.append(code.as_str());
            let ghost before = texts(self.console_output@);
            self.console_output.push(line);
            assert(ks@.take(i + 1) =~= ks@.take(i as int).push(k));
            assert(listing(ks@.take(i + 1), self.lines@) =~= listing(ks@.take(i as int), self.lines@).push(
                listing_line(k, self.lines@[k]@),
            ));
            assert(texts(self.console_output@) =~= before.push(listing_line(k, self.lines@[k]@)));
            i = i + 1;
        }
        assert(ks@.take(ks@.len() as int) =~= ks@);
    }

    /// Starts a run: the console shows `Running...` and the line numbers
    /// are handed back in order with the first position (`OK` follows at
    /// once when there are no lines).
    pub fn start_run(&mut self) -> (r: (Vec<usize>, Option<usize>))
        ensures
            in_order(r.0@, old(self).lines@),
            r.1 == (if r.0@.len() == 0 {
                None
            } else {
                Some(0usize)
            }),
            texts(final(self).console_output@) == (if r.0@.len() == 0 {
                seq!["Running..."@, "OK"@]
            } else {
                seq!["Running..."@]
            }),
            final(self).lines == old(self).lines,
            final(self).input_line == old(self).input_line,
            final(self).is_running == old(self).is_running,
            final(self).status_msg == old(self).status_msg,
    {
        self.console_output.clear();
        self.console_output.push(String::from_str("Running..."));
        let nums = line_numbers(&self.lines);
        if nums.len() == 0 {
            self.console_output.push(String::from_str("OK"));
            assert(texts(self.console_output@) =~= seq!["Running..."@, "OK"@]);
            (nums, None)
        } else {
            assert(texts(self.console_output@) =~= seq!["Running..."@]);
            (nums, Some(0))
        }
    }

    /// Executes line `nums[pc]` of the program (see `execute_line`).
    pub fn run_line(&mut self, nums: &Vec<usize>, pc: usize, vga: &mut QuatVGA) -> (r: Option<BasicStatement>)
        requires
            pc < nums@.len(),
            in_order(nums@, old(self).lines@),
            vga_wf(*old(vga)),
        ensures
            ({
                let code = old(self).lines@[nums@[pc as int]]@;
                &&& r is None <==> breaks(code)
                &&& r is None ==> final(self).console_output == old(self).console_output && final(vga).vram
                    == old(vga).vram
                &&& r matches Some(st) ==> {
                    &&& decoded(code, st)
                    &&& texts(final(self).console_output@) == console_after(
                        texts(old(self).console_output@),
                        st,
                    )
                    &&& final(vga).vram@ == screen_after(old(vga).vram@, st)
                }
            }),
            vga_wf(*final(vga)),
            final(vga).palette == old(vga).palette,
            final(vga).demo_mode == old(vga).demo_mode,
            final(vga).frame_counter == old(vga).frame_counter,
            final(self).lines == old(self).lines,
            final(self).input_line == old(self).input_line,
            final(self).is_running == old(self).is_running,
            final(self).status_msg == old(self).status_msg,
    {
        let k = nums[pc];
        assert(nums@.contains(k));
        let code = match self.lines.get(&k) {
            Some(c) => c.clone(),
            None => {
                assert(false);
                return None;
            },
        };
        self.execute_line(code.as_str(), vga)
    }

    /// The position the run goes to after line `nums[pc]`, which asked for
    /// `goto`: the next line, or the first line numbered `goto`.  `None`
    /// ends the run: after the last line, or (with an error line) when no
    /// line has the number; `OK` closes the console either way.
    pub fn advance(&mut self, nums: &Vec<usize>, pc: usize, goto: Option<usize>) -> (next: Option<usize>)
        requires
            pc < nums@.len(),
        ensures
            match goto {
                None => if pc + 1 < nums@.len() {
                    next == Some((pc + 1) as usize) && final(self).console_output == old(
                        self,
                    ).console_output
                } else {
                    next is None && texts(final(self).console_output@) == texts(
                        old(self).console_output@,
                    ).push("OK"@)
                },
                Some(t) => if nums@.contains(t) {
                    next matches Some(i) && first_at(nums@, t, i as int) && final(self).console_output
                        == old(self).console_output
                } else {
                    next is None && texts(final(self).console_output@) == texts(
                        old(self).console_output@,
                    ).push(missing_line(t)).push("OK"@)
                },
            },
            final(self).lines == old(self).lines,
            final(self).input_line == old(self).input_line,
            final(self).is_running == old(self).is_running,
            final(self).status_msg == old(self).status_msg,
    {
        match goto {
            None => {
                if pc < nums.len() - 1 {
                    Some(pc + 1)
                } else {
                    let ghost before = texts(self.console_output@);
                    self.console_output.push(String::from_str("OK"));
                    assert(texts(self.console_output@) =~= before.push("OK"@));
                    None
                }
            },
            Some(t) => {
                let mut i: usize = 0;
                while i < nums.len()
                    invariant
                        i <= nums@.len(),
                        goto == Some(t),
                        forall|j: int| 0 <= j < i ==> nums@[j] != t,
                    decreases nums@.len() - i,
                {
                    if nums[i] == t {
                        return Some(i);
                    }
                    i = i + 1;
                }
                let ghost before = texts(self.console_output@);
                let mut m = String::from_str("ERR: Linija ");
                push_dec(&mut m, t as u64);
                m.append(" ne postoji!");
                self.console_output.push(m);
                self.console_output.push(String::from_str("OK"));
                assert(texts(self.console_output@) =~= before.push(missing_line(t)).push("OK"@));
                None
            },
        }
    }
}

/// The first word of a text is no longer than the text.
proof fn lemma_first_word_len(s: Seq<char>)
    requires
        words(s).len() > 0,
    ensures
        words(s)[0].len() <= s.len(),
{
    crate::text::lemma_trim_start_len(s);
    crate::text::lemma_word_prefix(crate::text::trim_start(s));
}

/// The characters of `cs` from position `start` on.
fn chars_from(cs: &[char], start: usize) -> (r: Vec<char>)
    requires
        start <= cs@.len(),
    ensures
        r@ == cs@.skip(start as int),
{
    let mut r: Vec<char> = Vec::new();
    let mut i: usize = start;
    while i < cs.len()
        invariant
            start <= i <= cs@.len(),
            r@ == cs@.subrange(start as int, i as int),
        decreases cs@.len() - i,
    {
        r.push(cs[i]);
        assert(cs@.subrange(start as int, i + 1) =~= cs@.subrange(start as int, i as int).push(cs@[i as int]));
        i = i + 1;
    }
    assert(cs@.subrange(start as int, cs@.len() as int) =~= cs@.skip(start as int));
    r
}

impl QuatBASIC {
    /// Reads the command line.  A line that starts with a number stores
    /// the rest as that program line, or deletes the line when nothing
    /// follows; `RUN`, `LIST`, `NEW` and `CLS` (in any case) are commands;
    /// anything else is executed at once (see `execute_line`).  The command
    /// line is emptied unless it was blank.  `None` where the statement
    /// cannot be executed (see `breaks`).
    pub fn process_input(&mut self, vga: &mut QuatVGA) -> (r: Option<BasicCommand>)
        requires
            vga_wf(*old(vga)),
        ensures
            ({
                let inp = trim(old(self).input_line@);
                if inp.len() == 0 {
                    &&& r matches Some(BasicCommand::Done)
                    &&& final(self).input_line == old(self).input_line
                    &&& final(self).lines == old(self).lines
                    &&& final(self).console_output == old(self).console_output
                    &&& final(vga).vram == old(vga).vram
                } else {
                    let w = words(inp)[0];
                    &&& final(self).input_line@.len() == 0
                    &&& match parse_unsigned(w, 10, usize::MAX as nat) {
                        Some(n) => {
                            let rest = trim(inp.skip(w.len() as int));
                            &&& r matches Some(BasicCommand::Done)
                            &&& program(final(self).lines@) == (if rest.len() == 0 {
                                program(old(self).lines@).remove(n as usize)
                            } else {
                                program(old(self).lines@).insert(n as usize, rest)
                            })
                            &&& final(self).console_output == old(self).console_output
                            &&& final(vga).vram == old(vga).vram
                        },
                        None => {
                            let u = upper_text(inp);
                            if u == "RUN"@ {
                                &&& r matches Some(BasicCommand::Run)
                                &&& final(self).lines == old(self).lines
                                &&& final(self).console_output == old(self).console_output
                                &&& final(vga).vram == old(vga).vram
                            } else if u == "LIST"@ {
                                &&& r matches Some(BasicCommand::Done)
                                &&& final(self).lines == old(self).lines
                                &&& exists|ks: Seq<usize>|
                                    #![trigger in_order(ks, old(self).lines@)]
                                    in_order(ks, old(self).lines@) && texts(final(self).console_output@) == texts(
                                        old(self).console_output@,
                                    ).push("--- PROGRAM LISTING ---"@) + listing(ks, old(self).lines@)
                                &&& final(vga).vram == old(vga).vram
                            } else if u == "NEW"@ {
                                &&& r matches Some(BasicCommand::New)
                                &&& final(self).lines@ == Map::<usize, String>::empty()
                                &&& texts(final(self).console_output@) == seq!["Ready."@]
                                &&& final(vga).vram == old(vga).vram
                            } else if u == "CLS"@ {
                                &&& r matches Some(BasicCommand::Done)
                                &&& final(self).lines == old(self).lines
                                &&& final(self).console_output@.len() == 0
                                &&& final(vga).vram == old(vga).vram
                            } else {
                                &&& r is None <==> breaks(inp)
                                &&& r is None ==> final(self).console_output == old(self).console_output
                                    && final(vga).vram == old(vga).vram
                                &&& r matches Some(c) ==> c matches BasicCommand::Statement(st) && decoded(
                                    inp,
                                    st,
                                ) && texts(final(self).console_output@) == console_after(
                                    texts(old(self).console_output@),
                                    st,
                                ) && final(vga).vram@ == screen_after(old(vga).vram@, st)
                                &&& final(self).lines == old(self).lines
                            }
                        },
                    }
                }
            }),
            vga_wf(*final(vga)),
            final(vga).palette == old(vga).palette,
            final(vga).demo_mode == old(vga).demo_mode,
            final(vga).frame_counter == old(vga).frame_counter,
            final(self).is_running == old(self).is_running,
            final(self).status_msg == old(self).status_msg,
    {
        let cs = chars_of(self.input_line.as_str());
        let inp = trim_chars(&cs);
        if inp.len() == 0 {
            return Some(BasicCommand::Done);
        }
        self.input_line = String::new();
        proof {
            crate::quat_dos::lemma_trim_first(cs@);
        }
        let parts = split_words(&inp);
        let ghost pv = parts@.map_values(|w: Vec<char>| w@);
        assert(pv[0] == parts@[0]@);
        match parse_unsigned_chars(&parts[0], 10, usize::MAX as u64) {
            Some(v) => {
                let n = v as usize;
                let wl = parts[0].len();
                assert(wl <= inp@.len()) by {
                    lemma_first_word_len(inp@);
                }
                let rest = trim_chars(&chars_from(&inp, wl));
                if rest.len() == 0 {
                    self.lines.remove(&n);
                    assert(program(self.lines@) =~= program(old(self).lines@).remove(n));
                } else {
                    self.lines.insert(n, string_of(&rest));
                    assert(program(self.lines@) =~= program(old(self).lines@).insert(n, rest@));
                }
                return Some(BasicCommand::Done);
            },
            None => {},
        }
        let text = string_of(&inp);
        let up = upper_chars(&inp);
        if chars_are(&up, "RUN") {
            return Some(BasicCommand::Run);
        }
        if chars_are(&up, "LIST") {
            self.list_program();
            return Some(BasicCommand::Done);
        }
        if chars_are(&up, "NEW") {
            self.lines.clear();
            self.console_output.clear();
            self.console_output.push(String::from_str("Ready."));
            assert(texts(self.console_output@) =~= seq!["Ready."@]);
            return Some(BasicCommand::New);
        }
        if chars_are(&up, "CLS") {
            self.console_output.clear();
            return Some(BasicCommand::Done);
        }
        match self.execute_line(text.as_str(), vga) {
            Some(st) => Some(BasicCommand::Statement(st)),
            None => None,
        }
    }
}

} // verus!
