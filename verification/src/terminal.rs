//! QuatShell, the kernel's own terminal: coloured lines, a command history
//! and commands that show and step the kernel.

use vstd::prelude::*;
use crate::kernel::{QuatKernel, quats_of, stepped, texts};
use crate::quat_dos::{join_words, word_seqs};
use crate::text::{
    trim,
    words,
    hex_pad,
    dec_str,
    zero_pad,
    parse_unsigned,
    lower_text,
    chars_of,
    string_of,
    trim_chars,
    split_words,
    lower_chars,
    chars_are,
    push_chars,
    push_radix,
    parse_unsigned_chars,
    lemma_radix_nonempty,
};

verus! {

/// The colours of the terminal's lines.
#[derive(Clone, Copy, Debug, PartialEq, Eq, Structural)]
pub enum TermColor {
    White,
    Gray,
    LightGray,
    Green,
    LightGreen,
    LightBlue,
    Yellow,
    Red,
}

/// A line of the terminal.
pub struct TerminalLine {
    pub text: String,
    pub color: TermColor,
}

/// The terminal.
pub struct QuatTerminal {
    pub input_buffer: String,
    pub history: Vec<TerminalLine>,
    pub cmd_history: Vec<String>,
    pub cmd_index: usize,
}

/// The terminal's lines as texts and colours.
pub open spec fn term_lines(h: Seq<TerminalLine>) -> Seq<(Seq<char>, TermColor)> {
    h.map_values(|l: TerminalLine| (l.text@, l.color))
}

/// The digit text of a quat.
pub open spec fn quat_digit(q: u8) -> Seq<char> {
    dec_str(q as nat)
}

/// The four quats of `v` written one after another.
pub open spec fn quat_digits(v: u8) -> Seq<char> {
    quat_digit(quats_of(v)[0]) + quat_digit(quats_of(v)[1]) + quat_digit(quats_of(v)[2]) + quat_digit(
        quats_of(v)[3],
    )
}

/// The help screen.
pub open spec fn term_help() -> Seq<(Seq<char>, TermColor)> {
    seq![
        ("=== QuatShell Komande ==="@, TermColor::Yellow),
        ("  help          - Prikazuje ovaj meni"@, TermColor::LightGray),
        ("  clear         - Briše ekran terminala"@, TermColor::LightGray),
        ("  sysinfo       - Prikazuje stanje CPU registara"@, TermColor::LightGray),
        ("  quat <0-255>  - Prevodi dekadni broj u [Q3 Q2 Q1 Q0] format"@, TermColor::LightGray),
        ("  mem <offset>  - Čita 8 QuatBajtova iz RAM memorije"@, TermColor::LightGray),
        ("  step          - Izvršava 1 takt kerna"@, TermColor::LightGray),
        ("  echo <tekst>  - Ispisuje tekst u konzoli"@, TermColor::LightGray),
        ("  matrix        - Simulacija Quat-Matrix toka podataka"@, TermColor::LightGreen),
    ]
}

/// The register report of `sysinfo`.
pub open spec fn sysinfo_lines(k: QuatKernel) -> Seq<(Seq<char>, TermColor)> {
    seq![
        ("PC (Program Counter): "@ + hex_pad(k.pc as nat, 2), TermColor::LightBlue),
        ("RegA: "@ + zero_pad(dec_str(k.reg_a.0 as nat), 3) + " | Quats: ["@ + quat_digits(k.reg_a.0) + "]"@, TermColor::LightBlue),
        ("RegB: "@ + zero_pad(dec_str(k.reg_b.0 as nat), 3) + " | Quats: ["@ + quat_digits(k.reg_b.0) + "]"@, TermColor::LightBlue),
    ]
}

/// The reply of `quat`.
pub open spec fn quat_lines(ws: Seq<Seq<char>>) -> Seq<(Seq<char>, TermColor)> {
    if ws.len() > 1 {
        match parse_unsigned(ws[1], 10, 255) {
            Some(v) => {
                let q = quats_of(v as u8);
                seq![
                    (
                        "Dekadno: "@ + dec_str(v) + " -> Kvatarni format: ["@ + quat_digit(q[0]) + "] ["@ + quat_digit(q[1])
                            + "] ["@ + quat_digit(q[2]) + "] ["@ + quat_digit(q[3]) + "]"@,
                        TermColor::Green,
                    ),
                ]
            },
            None => seq![("Greška: Unesite broj između 0 i 255."@, TermColor::Red)],
        }
    } else {
        seq![("Upotreba: quat <0-255>"@, TermColor::Yellow)]
    }
}

/// The address `mem` starts at: the second word as a decimal number, 0
/// when there is none or it is not one.
pub open spec fn mem_offset(ws: Seq<Seq<char>>) -> nat {
    if ws.len() > 1 {
        match parse_unsigned(ws[1], 10, usize::MAX as nat) {
            Some(v) => v,
            None => 0,
        }
    } else {
        0
    }
}

/// The dump line of RAM address `i`.
pub open spec fn mem_dump_line(k: QuatKernel, i: int) -> (Seq<char>, TermColor) {
    let b = k.ram@[i].0;
    (
        "  ["@ + hex_pad(i as nat, 2) + "]: RAW="@ + zero_pad(dec_str(b as nat), 3) + " | Quats="@ + quat_digits(b),
        TermColor::LightGray,
    )
}

/// The dump of `mem`: up to 8 bytes from the offset, not past 255.
pub open spec fn mem_dump(ws: Seq<Seq<char>>, k: QuatKernel) -> Seq<(Seq<char>, TermColor)> {
    let o: int = mem_offset(ws) as int;
    let end: int = if o + 8 < 256 {
        o + 8
    } else {
        256
    };
    let n: int = if end > o {
        end - o
    } else {
        0
    };
    seq![("RAM Ispis od adrese "@ + hex_pad(o as nat, 2) + ":"@, TermColor::Yellow)] + Seq::new(
        n as nat,
        |j: int| mem_dump_line(k, o + j),
    )
}

/// What the command `c` (lower case) with words `ws` prints; `k` is the
/// kernel after the command.
pub open spec fn term_reply(c: Seq<char>, ws: Seq<Seq<char>>, k: QuatKernel) -> Seq<(Seq<char>, TermColor)> {
    if c == "help"@ {
        term_help()
    } else if c == "clear"@ {
        Seq::empty()
    } else if c == "sysinfo"@ {
        sysinfo_lines(k)
    } else if c == "quat"@ {
        quat_lines(ws)
    } else if c == "mem"@ {
        mem_dump(ws, k)
    } else if c == "step"@ {
        seq![("Izvršen 1 takt kerna."@, TermColor::Green)]
    } else if c == "echo"@ {
        seq![(join_words(ws.skip(1)), TermColor::LightGray)]
    } else if c == "matrix"@ {
        seq![
            ("3102 0123 3301 1230 0031 2103"@, TermColor::Green),
            ("0012 3321 1023 2210 3102 0321"@, TermColor::Green),
            ("Quat-Stream Sinhronizovan."@, TermColor::Green),
        ]
    } else {
        seq![("Nepoznata komanda: '"@ + c + "'. Kucajte 'help'."@, TermColor::Red)]
    }
}

/// The `mem` offset would pass the largest `usize` when 8 is added.
pub open spec fn mem_overflows(c: Seq<char>, ws: Seq<Seq<char>>) -> bool {
    c == "mem"@ && mem_offset(ws) + 8 > usize::MAX
}

/// The line `raw` is a `mem` whose offset would pass the largest `usize`.
pub open spec fn term_line_overflows(raw: Seq<char>) -> bool {
    let t = trim(raw);
    t.len() > 0 && mem_overflows(lower_text(words(t)[0]), words(t))
}

/// The kernel after the command: `step` steps it, the others leave it.
pub open spec fn term_kernel(c: Seq<char>, k0: QuatKernel, k1: QuatKernel) -> bool {
    if c == "step"@ {
        stepped(k0, k1)
    } else {
        k1 == k0
    }
}

proof fn lemma_shell_words()
    ensures
        "help"@ == seq!['h', 'e', 'l', 'p'],
        "clear"@ == seq!['c', 'l', 'e', 'a', 'r'],
        "sysinfo"@ == seq!['s', 'y', 's', 'i', 'n', 'f', 'o'],
        "quat"@ == seq!['q', 'u', 'a', 't'],
        "mem"@ == seq!['m', 'e', 'm'],
        "step"@ == seq!['s', 't', 'e', 'p'],
        "echo"@ == seq!['e', 'c', 'h', 'o'],
        "matrix"@ == seq!['m', 'a', 't', 'r', 'i', 'x'],
{
    reveal_strlit("help");
    reveal_strlit("clear");
    reveal_strlit("sysinfo");
    reveal_strlit("quat");
    reveal_strlit("mem");
    reveal_strlit("step");
    reveal_strlit("echo");
    reveal_strlit("matrix");
}

/// Appends the four quat digits of `v`.
fn push_quat_digits(s: &mut String, v: u8)
    ensures
        final(s)@ == old(s)@ + quat_digits(v),
{
    let q = crate::kernel::QuatByte(v).to_quats();
    proof {
        lemma_radix_nonempty(q@[0] as nat, 10);
        lemma_radix_nonempty(q@[1] as nat, 10);
        lemma_radix_nonempty(q@[2] as nat, 10);
        lemma_radix_nonempty(q@[3] as nat, 10);
    }
    push_radix(s, q[0] as u64, 10, 1);
    push_radix(s, q[1] as u64, 10, 1);
    push_radix(s, q[2] as u64, 10, 1);
    push_radix(s, q[3] as u64, 10, 1);
}

impl QuatTerminal {
    /// An empty terminal showing its greeting.
    pub fn new() -> (t: QuatTerminal)
        ensures
            t.input_buffer@.len() == 0,
            term_lines(t.history@) == seq![
                ("QuatOS Shell v4.4 (256-State Architecture)"@, TermColor::Green),
                ("Kucajte 'help' za spisak dostupnih komandi.\n"@, TermColor::Gray),
            ],
            t.cmd_history@.len() == 0,
            t.cmd_index == 0,
    {
        let mut term = QuatTerminal {
            input_buffer: String::new(),
            history: Vec::new(),
            cmd_history: Vec::new(),
            cmd_index: 0,
        };
        term.print("QuatOS Shell v4.4 (256-State Architecture)", TermColor::Green);
        term.print("Kucajte 'help' za spisak dostupnih komandi.\n", TermColor::Gray);
        assert(term_lines(term.history@) =~= seq![
            ("QuatOS Shell v4.4 (256-State Architecture)"@, TermColor::Green),
            ("Kucajte 'help' za spisak dostupnih komandi.\n"@, TermColor::Gray),
        ]);
        term
    }

    /// Adds the line `text` in colour `color`.
    pub fn print(&mut self, text: &str, color: TermColor)
        ensures
            term_lines(final(self).history@) == term_lines(old(self).history@).push((text@, color)),
            final(self).input_buffer == old(self).input_buffer,
            final(self).cmd_history == old(self).cmd_history,
            final(self).cmd_index == old(self).cmd_index,
    {
        let ghost before = term_lines(self.history@);
        self.history.push(TerminalLine { text: String::from_str(text), color });
        assert(term_lines(self.history@) =~= before.push((text@, color)));
    }

    /// Runs the command `cmd` (the first word, in lower case) with the
    /// words `parts` of the line: it prints `term_reply` (after `clear`
    /// the screen is empty) and `step` steps the kernel.
    #[verifier::rlimit(40)]
    pub fn run_command(&mut self, cmd: &[char], parts: &[Vec<char>], kernel: &mut QuatKernel)
        requires
            parts@.len() >= 1,
            !mem_overflows(cmd@, word_seqs(parts@)),
        ensures
            term_kernel(cmd@, *old(kernel), *final(kernel)),
            term_lines(final(self).history@) == (if cmd@ == "clear"@ {
                Seq::empty()
            } else {
                term_lines(old(self).history@) + term_reply(cmd@, word_seqs(parts@), *final(kernel))
            }),
            final(self).input_buffer == old(self).input_buffer,
            final(self).cmd_history == old(self).cmd_history,
            final(self).cmd_index == old(self).cmd_index,
    {
        let ghost c = cmd@;
        let ghost ws = word_seqs(parts@);
        let ghost h0 = term_lines(self.history@);
        proof {
            lemma_shell_words();
        }
        assert(parts@.len() == ws.len());
        assert(forall|i: int| 0 <= i < parts@.len() ==> #[trigger] ws[i] == parts@[i]@);
        if chars_are(cmd, "help") {
            self.print("=== QuatShell Komande ===", TermColor::Yellow);
            self.print("  help          - Prikazuje ovaj meni", TermColor::LightGray);
            self.print("  clear         - Briše ekran terminala", TermColor::LightGray);
            self.print("  sysinfo       - Prikazuje stanje CPU registara", TermColor::LightGray);
            self.print("  quat <0-255>  - Prevodi dekadni broj u [Q3 Q2 Q1 Q0] format", TermColor::LightGray);
            self.print("  mem <offset>  - Čita 8 QuatBajtova iz RAM memorije", TermColor::LightGray);
            self.print("  step          - Izvršava 1 takt kerna", TermColor::LightGray);
            self.print("  echo <tekst>  - Ispisuje tekst u konzoli", TermColor::LightGray);
            self.print("  matrix        - Simulacija Quat-Matrix toka podataka", TermColor::LightGreen);
            assert(term_lines(self.history@) =~= h0 + term_help());
            return;
        }
        if chars_are(cmd, "clear") {
            self.history.clear();
            assert(term_lines(self.history@) =~= Seq::<(Seq<char>, TermColor)>::empty());
            return;
        }
        if chars_are(cmd, "sysinfo") {
            let mut t = String::from_str("PC (Program Counter): ");
            push_radix(&mut t, kernel.pc as u64, 16, 2);
            self.print(t.as_str(), TermColor::LightBlue);
            let mut t = String::from_str("RegA: ");
            push_radix(&mut t, kernel.reg_a.0 as u64, 10, 3);
            t.append(" | Quats: [");
            push_quat_digits(&mut t, kernel.reg_a.0);
            t.append("]");
            self.print(t.as_str(), TermColor::LightBlue);
            let mut t = String::from_str("RegB: ");
            push_radix(&mut t, kernel.reg_b.0 as u64, 10, 3);
            t.append(" | Quats: [");
            push_quat_digits(&mut t, kernel.reg_b.0);
            t.append("]");
            self.print(t.as_str(), TermColor::LightBlue);
            assert(term_lines(self.history@) =~= h0 + sysinfo_lines(*kernel));
            return;
        }
        if chars_are(cmd, "quat") {
            if parts.len() > 1 {
                match parse_unsigned_chars(&parts[1], 10, 255) {
                    Some(v) => {
                        let val = v as u8;
                        let q = crate::kernel::QuatByte(val).to_quats();
                        let mut t = String::from_str("Dekadno: ");
                        push_radix(&mut t, v, 10, 1);
                        t.append(" -> Kvatarni format: [");
                        push_radix(&mut t, q[0] as u64, 10, 1);
                        t.append("] [");
                        push_radix(&mut t, q[1] as u64, 10, 1);
                        t.append("] [");
                        push_radix(&mut t, q[2] as u64, 10, 1);
                        t.append("] [");
                        push_radix(&mut t, q[3] as u64, 10, 1);
                        t.append("]");
                        proof {
                            lemma_radix_nonempty(v as nat, 10);
                            lemma_radix_nonempty(q@[0] as nat, 10);
                            lemma_radix_nonempty(q@[1] as nat, 10);
                            lemma_radix_nonempty(q@[2] as nat, 10);
                            lemma_radix_nonempty(q@[3] as nat, 10);
                        }
                        self.print(t.as_str(), TermColor::Green);
                    },
                    None => {
                        self.print("Greška: Unesite broj između 0 i 255.", TermColor::Red);
                    },
                }
            } else {
                self.print("Upotreba: quat <0-255>", TermColor::Yellow);
            }
            assert(term_lines(self.history@) =~= h0 + quat_lines(ws));
            return;
        }
        if chars_are(cmd, "mem") {
            let offset: usize = if parts.len() > 1 {
                match parse_unsigned_chars(&parts[1], 10, usize::MAX as u64) {
                    Some(v) => v as usize,
                    None => 0,
                }
            } else {
                0
            };
            assert(offset == mem_offset(ws));
            let mut t = String::from_str("RAM Ispis od adrese ");
            push_radix(&mut t, offset as u64, 16, 2);
            t.append(":");
            self.print(t.as_str(), TermColor::Yellow);
            let ghost h1 = term_lines(self.history@);
            let end: usize = if offset + 8 < 256 {
                offset + 8
            } else {
                256
            };
            let mut i = offset;
            while i < end
                invariant
                    offset <= i,
                    i <= end || end <= offset,
                    end <= offset ==> i == offset,
                    end <= 256,
                    end == (if offset + 8 < 256 {
                        offset + 8
                    } else {
                        256
                    }),
                    i < end ==> i < 256,
                    term_lines(self.history@) == h1 + Seq::new(
                        (i - offset) as nat,
                        |j: int| mem_dump_line(*kernel, offset + j),
                    ),
                    self.input_buffer == old(self).input_buffer,
                    self.cmd_history == old(self).cmd_history,
                    self.cmd_index == old(self).cmd_index,
                decreases end - i,
            {
                let b = kernel.ram[i].0;
                let mut t = String::from_str("  [");
                push_radix(&mut t, i as u64, 16, 2);
                t.append("]: RAW=");
                push_radix(&mut t, b as u64, 10, 3);
                t.append(" | Quats=");
                push_quat_digits(&mut t, b);
                let ghost before = term_lines(self.history@);
                self.print(t.as_str(), TermColor::LightGray);
                assert(t@ == mem_dump_line(*kernel, i as int).0);
                assert(Seq::new((i + 1 - offset) as nat, |j: int| mem_dump_line(*kernel, offset + j)) =~= Seq::new(
                    (i - offset) as nat,
                    |j: int| mem_dump_line(*kernel, offset + j),
                ).push(mem_dump_line(*kernel, i as int)));
                i = i + 1;
            }
            assert(term_lines(self.history@) =~= h0 + mem_dump(ws, *kernel));
            return;
        }
        if chars_are(cmd, "step") {
            kernel.step();
            self.print("Izvršen 1 takt kerna.", TermColor::Green);
            assert(term_lines(self.history@) =~= h0 + term_reply(c, ws, *kernel));
            return;
        }
        if chars_are(cmd, "echo") {
            let rest = vstd::slice::slice_subrange(parts, 1, parts.len());
            assert(word_seqs(rest@) =~= ws.skip(1));
            let msg = crate::quat_dos::join_with_spaces(rest);
            let line = string_of(&msg);
            self.print(line.as_str(), TermColor::LightGray);
            assert(term_lines(self.history@) =~= h0 + term_reply(c, ws, *kernel));
            return;
        }
        if chars_are(cmd, "matrix") {
            self.print("3102 0123 3301 1230 0031 2103", TermColor::Green);
            self.print("0012 3321 1023 2210 3102 0321", TermColor::Green);
            self.print("Quat-Stream Sinhronizovan.", TermColor::Green);
            assert(term_lines(self.history@) =~= h0 + term_reply(c, ws, *kernel));
            return;
        }
        let mut t = String::from_str("Nepoznata komanda: '");
        push_chars(&mut t, cmd);
        t.append("'. Kucajte 'help'.");
        self.print(t.as_str(), TermColor::Red);
        assert(term_lines(self.history@) =~= h0 + term_reply(c, ws, *kernel));
    }

    /// Runs the input line.  A blank line does nothing.  Otherwise the
    /// trimmed line is echoed after the prompt in white and recorded, the
    /// input is cleared, and the first word, in lower case, runs as the
    /// command with the line's words (see `run_command`).
    pub fn execute(&mut self, kernel: &mut QuatKernel)
        requires
            !term_line_overflows(old(self).input_buffer@),
        ensures
            trim(old(self).input_buffer@).len() == 0 ==> *final(self) == *old(self) && *final(kernel) == *old(
                kernel,
            ),
            trim(old(self).input_buffer@).len() > 0 ==> {
                let t = trim(old(self).input_buffer@);
                let ws = words(t);
                let c = lower_text(ws[0]);
                let echoed = term_lines(old(self).history@).push(("quat@kernel:~ $ "@ + t, TermColor::White));
                &&& term_kernel(c, *old(kernel), *final(kernel))
                &&& term_lines(final(self).history@) == (if c == "clear"@ {
                    Seq::empty()
                } else {
                    echoed + term_reply(c, ws, *final(kernel))
                })
                &&& texts(final(self).cmd_history@) == texts(old(self).cmd_history@).push(t)
                &&& final(self).cmd_index == final(self).cmd_history@.len()
                &&& final(self).input_buffer@.len() == 0
            },
    {
        let all = chars_of(self.input_buffer.as_str());
        let input = trim_chars(&all);
        if input.len() == 0 {
            return;
        }
        let mut echo = String::from_str("quat@kernel:~ $ ");
        push_chars(&mut echo, &input);
        self.print(echo.as_str(), TermColor::White);
        let ghost before = texts(self.cmd_history@);
        self.cmd_history.push(string_of(&input));
        assert(texts(self.cmd_history@) =~= before.push(input@));
        self.cmd_index = self.cmd_history.len();
        self.input_buffer = String::new();
        let parts = split_words(&input);
        proof {
            crate::quat_dos::lemma_trim_first(old(self).input_buffer@);
        }
        assert(word_seqs(parts@) == words(input@));
        assert(parts@[0]@ == words(input@)[0]);
        let cmd = lower_chars(&parts[0]);
        self.run_command(&cmd, &parts, kernel);
    }

    /// Runs the input line as `execute` does, unless it is a `mem` whose
    /// offset would pass the largest `usize` when 8 is added: then nothing
    /// changes and the result is `false`.
    pub fn execute_checked(&mut self, kernel: &mut QuatKernel) -> (ran: bool)
        ensures
            ran <==> !term_line_overflows(old(self).input_buffer@),
            !ran ==> *final(self) == *old(self) && *final(kernel) == *old(kernel),
            ran && trim(old(self).input_buffer@).len() == 0 ==> *final(self) == *old(self) && *final(kernel)
                == *old(kernel),
            ran && trim(old(self).input_buffer@).len() > 0 ==> {
                let t = trim(old(self).input_buffer@);
                let ws = words(t);
                let c = lower_text(ws[0]);
                let echoed = term_lines(old(self).history@).push(("quat@kernel:~ $ "@ + t, TermColor::White));
                &&& term_kernel(c, *old(kernel), *final(kernel))
                &&& term_lines(final(self).history@) == (if c == "clear"@ {
                    Seq::empty()
                } else {
                    echoed + term_reply(c, ws, *final(kernel))
                })
                &&& texts(final(self).cmd_history@) == texts(old(self).cmd_history@).push(t)
                &&& final(self).cmd_index == final(self).cmd_history@.len()
                &&& final(self).input_buffer@.len() == 0
            },
    {
        let all = chars_of(self.input_buffer.as_str());
        let input = trim_chars(&all);
        if input.len() > 0 {
            let parts = split_words(&input);
            proof {
                crate::quat_dos::lemma_trim_first(self.input_buffer@);
                lemma_shell_words();
            }
            assert(word_seqs(parts@) == words(input@));
            assert(parts@[0]@ == words(input@)[0]);
            let cmd = lower_chars(&parts[0]);
            if chars_are(&cmd, "mem") && parts.len() > 1 {
                assert(parts@[1]@ == words(input@)[1]);
                match parse_unsigned_chars(&parts[1], 10, usize::MAX as u64) {
                    Some(v) => {
                        if v as usize > usize::MAX - 8 {
                            return false;
                        }
                    },
                    None => {},
                }
            }
        }
        self.execute(kernel);
        true
    }
}

} // verus!
