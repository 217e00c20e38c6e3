//! QuatDOS, the command shell: a coloured scroll-back of at most 200
//! lines, a command history, a floppy drive and a VGA adapter of its own,
//! and the commands that inspect and drive the machine.

use vstd::prelude::*;
use crate::kernel::{QuatByte, QuatKernel, texts};
use crate::quat_net::{QuatNET, fill_up};
use crate::quat_pic::QuatPIC;
use crate::quat_disk::{QuatDisk, blank_image, inserted_message};
use crate::quat_vga::{QuatVGA, vga_wf, in_rect, rect_overflows};
use crate::text::{
    lines,
    trim,
    words,
    hex_pad,
    dec_str,
    zero_pad,
    radix_str,
    parse_unsigned,
    upper_text,
    chars_of,
    string_of,
    trim_chars,
    split_words,
    upper_chars,
    chars_are,
    push_chars,
    push_radix,
    parse_unsigned_chars,
    lemma_trim_start_len,
    lemma_trim_end_len,
    trim_start,
    trim_end,
};

verus! {

/// The colours of the shell's lines.
#[derive(Clone, Copy, Debug, PartialEq, Eq, Structural)]
pub enum DosColor {
    White,
    LightGray,
    Gray,
    LightGreen,
    Green,
    Yellow,
    Gold,
    LightBlue,
    LightRed,
    Red,
    Cyan,
}

/// A sound the shell asks its caller to play.
#[derive(Clone, Debug, PartialEq, Eq)]
pub enum DosSound {
    /// The chirp of a format: 200 Hz for 500 ms.
    FormatChirp,
    /// `BEEP [freq [ms]]`: the frequency as typed, when one was given (the
    /// player reads it as a number, 440 Hz when it cannot), and the length
    /// in milliseconds.
    Beep { freq: Option<String>, ms: u64 },
}

/// The shell.
pub struct QuatDOS {
    pub history: Vec<(String, DosColor)>,
    pub input_buffer: String,
    pub prompt: String,
    pub command_history: Vec<String>,
    pub history_index: usize,
    pub disk: QuatDisk,
    pub vga: QuatVGA,
}

/// The scroll-back as texts and colours.
pub open spec fn hist(h: Seq<(String, DosColor)>) -> Seq<(Seq<char>, DosColor)> {
    h.map_values(|e: (String, DosColor)| (e.0@, e.1))
}

/// The last `n` elements of `s` (all of them when there are fewer).
pub open spec fn keep_last<T>(s: Seq<T>, n: nat) -> Seq<T> {
    if s.len() > n {
        s.skip(s.len() - n)
    } else {
        s
    }
}

/// The lines of `t`, each in colour `c`.
pub open spec fn colour_lines(t: Seq<char>, c: DosColor) -> Seq<(Seq<char>, DosColor)> {
    lines(t).map_values(|l: Seq<char>| (l, c))
}

/// The lines of the messages `m`, in order.
pub open spec fn flat_lines(m: Seq<(Seq<char>, DosColor)>) -> Seq<(Seq<char>, DosColor)>
    decreases m.len(),
{
    if m.len() == 0 {
        Seq::empty()
    } else {
        flat_lines(m.drop_last()) + colour_lines(m.last().0, m.last().1)
    }
}

/// The scroll-back `h` after printing the messages `m` one by one: each
/// print adds the message's lines and keeps the last 200.
pub open spec fn print_all(h: Seq<(Seq<char>, DosColor)>, m: Seq<(Seq<char>, DosColor)>) -> Seq<
    (Seq<char>, DosColor),
> {
    if m.len() == 0 {
        h
    } else {
        keep_last(h + flat_lines(m), 200)
    }
}

/// The number `s` as `PEEK` and `POKE` read it: hexadecimal after `0x` or
/// `0X`, decimal otherwise, up to the largest `usize`.
pub open spec fn hex_or_dec(s: Seq<char>) -> Option<nat> {
    if s.len() >= 2 && s[0] == '0' && (s[1] == 'x' || s[1] == 'X') {
        parse_unsigned(s.skip(2), 16, usize::MAX as nat)
    } else {
        parse_unsigned(s, 10, usize::MAX as nat)
    }
}

/// The decimal number `s` up to `max`, or `d` when `s` is not one.
pub open spec fn parsed_or(s: Seq<char>, max: nat, d: nat) -> nat {
    match parse_unsigned(s, 10, max) {
        Some(v) => v,
        None => d,
    }
}

/// The words `ws` joined by single spaces.
pub open spec fn join_words(ws: Seq<Seq<char>>) -> Seq<char>
    decreases ws.len(),
{
    if ws.len() == 0 {
        Seq::empty()
    } else if ws.len() == 1 {
        ws[0]
    } else {
        join_words(ws.drop_last()) + seq![' '] + ws.last()
    }
}

/// The number of non-zero bytes among the first `n` of `ram`.
pub open spec fn count_used(ram: Seq<QuatByte>, n: nat) -> nat
    decreases n,
{
    if n == 0 {
        0
    } else {
        count_used(ram, (n - 1) as nat) + (if ram[n - 1].0 != 0 {
            1nat
        } else {
            0nat
        })
    }
}

/// The help screen.
pub open spec fn help_lines() -> Seq<(Seq<char>, DosColor)> {
    seq![
        ("=== QUATDOS KOMANDE ==="@, DosColor::Gold),
        ("  CLS             - Čisti ekran terminala"@, DosColor::LightGray),
        ("  VER             - Verzija sistema"@, DosColor::LightGray),
        ("  MEM             - Status RAM-a i CPU registara"@, DosColor::LightGray),
        ("  PEEK <hex_addr> - Čitanje bajta iz memorije (npr: PEEK 0x70)"@, DosColor::LightGray),
        ("  POKE <addr> <val> - Upis u memoriju (npr: POKE 0x10 0xFF)"@, DosColor::LightGray),
        ("  RUN <hex_addr>  - Skok na adresu i start CPU-a"@, DosColor::LightGray),
        ("  HALT            - Pauziranje CPU-a"@, DosColor::LightGray),
        ("  NET <tekst>     - Slanje teksta u QuatNET modem"@, DosColor::LightGray),
        ("  IRQ <0-3>       - Test okidač hardverskog prekida"@, DosColor::LightGray),
    ]
}

/// The report of `MEM`.
pub open spec fn mem_lines(k: QuatKernel) -> Seq<(Seq<char>, DosColor)> {
    seq![
        ("--- CPU & MEMORY STATUS ---"@, DosColor::LightGreen),
        ("PC (Program Counter): 0x"@ + hex_pad(k.pc as nat, 2), DosColor::LightGreen),
        ("ACC (Akumulator):     0x"@ + hex_pad(k.reg_a.0 as nat, 2), DosColor::LightGreen),
        ("FLAGS (Zero/Carry):   Z:"@ + (if k.reg_a.0 == 0 {
            "1"@
        } else {
            "0"@
        }) + " C:0"@, DosColor::LightGreen),
        ("RAM Upotreba:          "@ + dec_str(count_used(k.ram@, 256)) + "/256 bajtova zauzeto"@, DosColor::LightGreen),
    ]
}

/// The reply of `PEEK`.
pub open spec fn peek_line(ws: Seq<Seq<char>>, k: QuatKernel) -> (Seq<char>, DosColor) {
    if ws.len() < 2 {
        ("Sintaksa: PEEK <adresa>"@, DosColor::LightRed)
    } else {
        match hex_or_dec(ws[1]) {
            Some(a) => if a < 256 {
                let v = k.ram@[a as int].0 as nat;
                (
                    "RAM[0x"@ + hex_pad(a, 2) + "] = 0x"@ + hex_pad(v, 2) + " (dec: "@ + dec_str(v) + ", bin: 0b"@
                        + zero_pad(radix_str(v, 2), 8) + ")"@,
                    DosColor::Green,
                )
            } else {
                ("Greška: Adresa van opsega (0x00-0xFF)"@, DosColor::LightRed)
            },
            None => ("Greška: Nevaljana adresa!"@, DosColor::LightRed),
        }
    }
}

/// The address and value of a valid `POKE`.
pub open spec fn poke_args(ws: Seq<Seq<char>>) -> Option<(nat, nat)> {
    if ws.len() >= 3 && hex_or_dec(ws[1]) is Some && hex_or_dec(ws[2]) is Some && hex_or_dec(ws[1])->0 < 256
        && hex_or_dec(ws[2])->0 <= 255 {
        Some((hex_or_dec(ws[1])->0, hex_or_dec(ws[2])->0))
    } else {
        None
    }
}

/// The reply of `POKE`.
pub open spec fn poke_line(ws: Seq<Seq<char>>) -> (Seq<char>, DosColor) {
    if ws.len() < 3 {
        ("Sintaksa: POKE <adresa> <vrednost>"@, DosColor::LightRed)
    } else {
        match poke_args(ws) {
            Some(p) => ("UPIS: RAM[0x"@ + hex_pad(p.0, 2) + "] <- 0x"@ + hex_pad(p.1, 2), DosColor::Green),
            None => ("Greška: Nevažeći parametri za POKE!"@, DosColor::LightRed),
        }
    }
}

/// The address of `RUN <addr>`, when it reads as a number.
pub open spec fn run_arg(ws: Seq<Seq<char>>) -> Option<nat> {
    if ws.len() >= 2 {
        hex_or_dec(ws[1])
    } else {
        None
    }
}

/// The reply of `RUN`.
pub open spec fn run_lines(ws: Seq<Seq<char>>) -> Seq<(Seq<char>, DosColor)> {
    if ws.len() >= 2 {
        match run_arg(ws) {
            Some(a) => seq![("🚀 CPU Pokrenut sa adrese 0x"@ + hex_pad(a, 2), DosColor::Green)],
            None => Seq::empty(),
        }
    } else {
        seq![("🚀 CPU Nastavlja rad..."@, DosColor::Green)]
    }
}

/// The text `NET` sends: its words joined by spaces.
pub open spec fn net_text(ws: Seq<Seq<char>>) -> Seq<char> {
    join_words(ws.skip(1))
}

/// The reply of `NET`.
pub open spec fn net_line(ws: Seq<Seq<char>>) -> (Seq<char>, DosColor) {
    if ws.len() > 1 {
        ("[NET OUT]: "@ + net_text(ws), DosColor::Cyan)
    } else {
        ("Sintaksa: NET <poruka za slanje>"@, DosColor::LightRed)
    }
}

/// The line of `IRQ <n>`, when `n` reads as a byte.
pub open spec fn irq_number(ws: Seq<Seq<char>>) -> Option<nat> {
    if ws.len() >= 2 {
        parse_unsigned(ws[1], 10, 255)
    } else {
        None
    }
}

/// The reply of `IRQ`.
pub open spec fn irq_lines(ws: Seq<Seq<char>>) -> Seq<(Seq<char>, DosColor)> {
    match irq_number(ws) {
        Some(n) => if n <= 3 {
            seq![("⚡ Trigorvan IRQ"@ + dec_str(n), DosColor::Yellow)]
        } else {
            seq![("IRQ mora biti između 0 i 3"@, DosColor::LightRed)]
        },
        None => Seq::empty(),
    }
}

/// The second word names drive A.
pub open spec fn names_drive_a(ws: Seq<Seq<char>>) -> bool {
    ws.len() >= 2 && upper_text(ws[1]) == "A:"@
}

/// The reply of `DIR`.
pub open spec fn dir_lines(ws: Seq<Seq<char>>, d: QuatDisk) -> Seq<(Seq<char>, DosColor)> {
    if names_drive_a(ws) {
        if d.image is Some {
            seq![
                (" Volume in drive A is "@ + d.label@, DosColor::White),
                (" Directory of A:\\"@, DosColor::LightGray),
                (""@, DosColor::LightGray),
                ("COMMAND  COM        45,056 04-09-95  12:00p"@, DosColor::LightGray),
                ("AUTOEXEC BAT           128 04-09-95  12:01p"@, DosColor::LightGray),
                ("CONFIG   SYS           256 04-09-95  12:01p"@, DosColor::LightGray),
                ("         3 File(s)     45,440 bytes"@, DosColor::LightGray),
                ("                  1,429,120 bytes free"@, DosColor::LightGray),
            ]
        } else {
            seq![("Not ready reading drive A: Abort, Retry, Fail?"@, DosColor::Red)]
        }
    } else {
        seq![("Directory of C:\\ ..."@, DosColor::LightGray)]
    }
}

/// The reply of `FORMAT`.
pub open spec fn format_lines(ws: Seq<Seq<char>>) -> Seq<(Seq<char>, DosColor)> {
    if names_drive_a(ws) {
        seq![
            ("Insert new diskette for drive A:"@, DosColor::Yellow),
            ("Formatting 1.44M... Format complete."@, DosColor::Green),
        ]
    } else {
        seq![("Upotreba: FORMAT A:"@, DosColor::LightGray)]
    }
}

/// `MODE 13H` was asked for.
pub open spec fn mode_13h(ws: Seq<Seq<char>>) -> bool {
    ws.len() >= 2 && ws[1] == "13H"@
}

/// The demo that `DEMO <name>` selects: 1 plasma, 2 fire, 3 stars, 0 off.
pub open spec fn demo_number(name: Seq<char>) -> usize {
    if name == "PLASMA"@ {
        1
    } else if name == "FIRE"@ {
        2
    } else if name == "STARS"@ {
        3
    } else {
        0
    }
}

/// The rectangle of `DRAW x y w h color`: unreadable numbers become 10,
/// 10, 50, 50 and 14.
pub open spec fn draw_args(ws: Seq<Seq<char>>) -> (usize, usize, usize, usize, u8) {
    (
        parsed_or(ws[1], usize::MAX as nat, 10) as usize,
        parsed_or(ws[2], usize::MAX as nat, 10) as usize,
        parsed_or(ws[3], usize::MAX as nat, 50) as usize,
        parsed_or(ws[4], usize::MAX as nat, 50) as usize,
        parsed_or(ws[5], 255, 14) as u8,
    )
}

/// The `DRAW` command would step past the largest `usize` while drawing.
pub open spec fn draw_overflows(c: Seq<char>, ws: Seq<Seq<char>>) -> bool {
    let a = draw_args(ws);
    c == "DRAW"@ && ws.len() >= 6 && rect_overflows(a.0, a.1, a.2, a.3)
}

/// What the command `c` (upper case) with words `ws` prints.
pub open spec fn dos_reply(c: Seq<char>, ws: Seq<Seq<char>>, k: QuatKernel, d: QuatDisk) -> Seq<
    (Seq<char>, DosColor),
> {
    if c == "HELP"@ || c == "?"@ {
        help_lines()
    } else if c == "CLS"@ || c == "CLEAR"@ {
        Seq::empty()
    } else if c == "BASIC"@ || c == "QBASIC"@ {
        seq![
            ("🔤 Pokrećem QuatBASIC Interpreter v1.0..."@, DosColor::LightBlue),
            ("Prebacujem na QuatBASIC tab..."@, DosColor::Green),
        ]
    } else if c == "VER"@ {
        seq![("QuatDOS v1.00 [Kernel v4.2 - Rust Engine]"@, DosColor::LightBlue)]
    } else if c == "MEM"@ {
        mem_lines(k)
    } else if c == "PEEK"@ {
        seq![peek_line(ws, k)]
    } else if c == "POKE"@ {
        seq![poke_line(ws)]
    } else if c == "RUN"@ {
        run_lines(ws)
    } else if c == "HALT"@ || c == "STOP"@ {
        seq![("⏹️ CPU Zaustavljen."@, DosColor::Yellow)]
    } else if c == "NET"@ {
        seq![net_line(ws)]
    } else if c == "IRQ"@ {
        irq_lines(ws)
    } else if c == "DIR"@ {
        dir_lines(ws, d)
    } else if c == "FORMAT"@ {
        format_lines(ws)
    } else if c == "MODE"@ {
        if mode_13h(ws) {
            seq![("🖥️ Prebačeno u Mode 13h (320x200x256). Grafički režim aktivan!"@, DosColor::Green)]
        } else {
            seq![("Upotreba: MODE 13H"@, DosColor::LightGray)]
        }
    } else if c == "DEMO"@ {
        if ws.len() >= 2 {
            seq![("🎬 Pokrenut VGA demo: "@ + ws[1], DosColor::Yellow)]
        } else {
            seq![("Dostupni demosi: DEMO PLASMA, DEMO FIRE, DEMO STARS, DEMO OFF"@, DosColor::LightGray)]
        }
    } else if c == "DRAW"@ {
        if ws.len() >= 6 {
            seq![("🎨 Nacrtan pravougaonik u VRAM-u!"@, DosColor::LightBlue)]
        } else {
            seq![("Upotreba: DRAW x y w h color_index"@, DosColor::LightGray)]
        }
    } else if c == "BEEP"@ {
        Seq::empty()
    } else {
        seq![("Nepoznata komanda: '"@ + c + "'. Kucaj 'HELP' za pomoć."@, DosColor::LightRed)]
    }
}

/// The command clears the screen.
pub open spec fn dos_clears(c: Seq<char>) -> bool {
    c == "CLS"@ || c == "CLEAR"@
}

/// RAM after the command: `POKE` writes a byte; `IRQ` mirrors the new
/// pending mask (`pending` before) to 0x72.
pub open spec fn dos_ram(c: Seq<char>, ws: Seq<Seq<char>>, ram: Seq<QuatByte>, pending: u8) -> Seq<QuatByte> {
    if c == "POKE"@ && poke_args(ws) is Some {
        let p = poke_args(ws)->0;
        ram.update(p.0 as int, QuatByte(p.1 as u8))
    } else if c == "IRQ"@ && irq_number(ws) is Some && irq_number(ws)->0 <= 3 {
        ram.update(0x72, QuatByte(pending | (1u8 << (irq_number(ws)->0 as u8))))
    } else {
        ram
    }
}

/// The pending mask after the command.
pub open spec fn dos_pending(c: Seq<char>, ws: Seq<Seq<char>>, pending: u8) -> u8 {
    if c == "IRQ"@ && irq_number(ws) is Some && irq_number(ws)->0 <= 3 {
        pending | (1u8 << (irq_number(ws)->0 as u8))
    } else {
        pending
    }
}

/// The program counter after the command.
pub open spec fn dos_pc(c: Seq<char>, ws: Seq<Seq<char>>, pc: u8) -> u8 {
    if c == "RUN"@ && run_arg(ws) is Some {
        (run_arg(ws)->0 % 256) as u8
    } else {
        pc
    }
}

/// Whether the kernel runs after the command.
pub open spec fn dos_running(c: Seq<char>, ws: Seq<Seq<char>>, running: bool) -> bool {
    if c == "RUN"@ && (ws.len() < 2 || run_arg(ws) is Some) {
        true
    } else if c == "HALT"@ || c == "STOP"@ {
        false
    } else {
        running
    }
}

/// The send buffer of the modem after the command.
pub open spec fn dos_tx(c: Seq<char>, ws: Seq<Seq<char>>, tx: Seq<u8>) -> Seq<u8> {
    if c == "NET"@ && ws.len() > 1 {
        fill_up(tx, vstd::utf8::encode_utf8(net_text(ws) + "\r\n"@), 64)
    } else {
        tx
    }
}

/// The command formats drive A.
pub open spec fn dos_formats(c: Seq<char>, ws: Seq<Seq<char>>) -> bool {
    c == "FORMAT"@ && names_drive_a(ws)
}

/// The demo mode after the command.
pub open spec fn dos_demo(c: Seq<char>, ws: Seq<Seq<char>>, demo: usize) -> usize {
    if c == "MODE"@ && mode_13h(ws) {
        1
    } else if c == "DEMO"@ && ws.len() >= 2 {
        demo_number(ws[1])
    } else if c == "DRAW"@ && ws.len() >= 6 {
        0
    } else {
        demo
    }
}

/// The command draws a rectangle.
pub open spec fn dos_draws(c: Seq<char>, ws: Seq<Seq<char>>) -> bool {
    c == "DRAW"@ && ws.len() >= 6
}

/// The picture after the command.
pub open spec fn dos_vram(c: Seq<char>, ws: Seq<Seq<char>>, v: Seq<u8>) -> Seq<u8> {
    if dos_draws(c, ws) {
        let a = draw_args(ws);
        Seq::new(
            v.len(),
            |i: int|
                if in_rect(i, a.0 as int, a.1 as int, a.2 as int, a.3 as int) {
                    a.4
                } else {
                    v[i]
                },
        )
    } else {
        v
    }
}

/// The length of a `BEEP`, in milliseconds.
pub open spec fn beep_ms(ws: Seq<Seq<char>>) -> u64 {
    if ws.len() >= 3 {
        parsed_or(ws[2], u64::MAX as nat, 200) as u64
    } else {
        200
    }
}

/// The sound the command asks for.
pub open spec fn dos_sound_ok(c: Seq<char>, ws: Seq<Seq<char>>, s: Option<DosSound>) -> bool {
    if dos_formats(c, ws) {
        s == Some(DosSound::FormatChirp)
    } else if c == "BEEP"@ {
        match s {
            Some(DosSound::Beep { freq, ms }) => {
                &&& ms == beep_ms(ws)
                &&& (freq is Some <==> ws.len() >= 2)
                &&& (freq is Some ==> freq->0@ == ws[1])
            },
            _ => false,
        }
    } else {
        s is None
    }
}

/// The shell's command words, spelled out.
proof fn lemma_command_words()
    ensures
        "HELP"@ == seq!['H', 'E', 'L', 'P'],
        "?"@ == seq!['?'],
        "CLS"@ == seq!['C', 'L', 'S'],
        "CLEAR"@ == seq!['C', 'L', 'E', 'A', 'R'],
        "BASIC"@ == seq!['B', 'A', 'S', 'I', 'C'],
        "QBASIC"@ == seq!['Q', 'B', 'A', 'S', 'I', 'C'],
        "VER"@ == seq!['V', 'E', 'R'],
        "MEM"@ == seq!['M', 'E', 'M'],
        "PEEK"@ == seq!['P', 'E', 'E', 'K'],
        "POKE"@ == seq!['P', 'O', 'K', 'E'],
        "RUN"@ == seq!['R', 'U', 'N'],
        "HALT"@ == seq!['H', 'A', 'L', 'T'],
        "STOP"@ == seq!['S', 'T', 'O', 'P'],
        "NET"@ == seq!['N', 'E', 'T'],
        "IRQ"@ == seq!['I', 'R', 'Q'],
        "DIR"@ == seq!['D', 'I', 'R'],
        "FORMAT"@ == seq!['F', 'O', 'R', 'M', 'A', 'T'],
        "MODE"@ == seq!['M', 'O', 'D', 'E'],
        "DEMO"@ == seq!['D', 'E', 'M', 'O'],
        "DRAW"@ == seq!['D', 'R', 'A', 'W'],
        "BEEP"@ == seq!['B', 'E', 'E', 'P'],
{
    reveal_strlit("HELP");
    reveal_strlit("?");
    reveal_strlit("CLS");
    reveal_strlit("CLEAR");
    reveal_strlit("BASIC");
    reveal_strlit("QBASIC");
    reveal_strlit("VER");
    reveal_strlit("MEM");
    reveal_strlit("PEEK");
    reveal_strlit("POKE");
    reveal_strlit("RUN");
    reveal_strlit("HALT");
    reveal_strlit("STOP");
    reveal_strlit("NET");
    reveal_strlit("IRQ");
    reveal_strlit("DIR");
    reveal_strlit("FORMAT");
    reveal_strlit("MODE");
    reveal_strlit("DEMO");
    reveal_strlit("DRAW");
    reveal_strlit("BEEP");
}

/// What the command `c` with words `ws` does to the machine: kernel `k0`
/// becomes `k1`, and likewise the modem, the interrupt controller, the
/// drive and the adapter; `sound` is what it asks to be played.
pub open spec fn dos_machine(
    c: Seq<char>,
    ws: Seq<Seq<char>>,
    k0: QuatKernel,
    k1: QuatKernel,
    n0: QuatNET,
    n1: QuatNET,
    p0: QuatPIC,
    p1: QuatPIC,
    d0: QuatDisk,
    d1: QuatDisk,
    v0: QuatVGA,
    v1: QuatVGA,
    sound: Option<DosSound>,
) -> bool {
    &&& k1.ram@ == dos_ram(c, ws, k0.ram@, p0.irq_pending)
    &&& k1.pc == dos_pc(c, ws, k0.pc)
    &&& k1.is_running == dos_running(c, ws, k0.is_running)
    &&& k1.reg_a == k0.reg_a
    &&& k1.reg_b == k0.reg_b
    &&& k1.vram == k0.vram
    &&& k1.logs == k0.logs
    &&& p1.irq_pending == dos_pending(c, ws, p0.irq_pending)
    &&& p1.irq_enabled == p0.irq_enabled
    &&& p1.vector_table == p0.vector_table
    &&& p1.master_enable == p0.master_enable
    &&& p1.last_serviced_irq == p0.last_serviced_irq
    &&& p1.pad == p0.pad
    &&& n1.tx_buffer@ == dos_tx(c, ws, n0.tx_buffer@)
    &&& n1.state == n0.state
    &&& n1.rx_buffer@ == n0.rx_buffer@
    &&& n1.terminal_log == n0.terminal_log
    &&& n1.tick_counter == n0.tick_counter
    &&& n1.baud_rate_ticks == n0.baud_rate_ticks
    &&& n1.total_bytes_sent == n0.total_bytes_sent
    &&& n1.total_bytes_received == n0.total_bytes_received
    &&& n1.echo_mode == n0.echo_mode
    &&& n1.input_text == n0.input_text
    &&& (dos_formats(c, ws) ==> {
        &&& d1.image is Some
        &&& d1.image->0@ == blank_image()
        &&& d1.label@ == "FORMATTED"@
        &&& d1.status_msg@ == inserted_message("FORMATTED"@)
        &&& d1.current_track == d0.current_track
        &&& d1.current_head == d0.current_head
        &&& d1.motor_on == d0.motor_on
        &&& d1.write_protected == d0.write_protected
        &&& d1.activity_led == d0.activity_led
        &&& d1.led_timer == d0.led_timer
        &&& d1.active_sector == d0.active_sector
    })
    &&& (!dos_formats(c, ws) ==> d1 == d0)
    &&& v1.demo_mode == dos_demo(c, ws, v0.demo_mode)
    &&& v1.vram@ == dos_vram(c, ws, v0.vram@)
    &&& v1.palette == v0.palette
    &&& v1.frame_counter == v0.frame_counter
    &&& dos_sound_ok(c, ws, sound)
}

/// The line `raw` is a `DRAW` whose rectangle would step past the
/// largest `usize`.
pub open spec fn line_overflows(raw: Seq<char>) -> bool {
    let t = trim(raw);
    t.len() > 0 && draw_overflows(upper_text(words(t)[0]), words(t))
}

proof fn lemma_keep_last_suffix<T>(s: Seq<T>, k: int, n: nat)
    requires
        0 <= k <= s.len(),
        s.len() - k >= n,
    ensures
        keep_last(s.skip(k), n) == keep_last(s, n),
{
    if s.len() - k > n {
        assert(s.skip(k).skip(s.skip(k).len() - n) =~= s.skip(s.len() - n));
    } else if s.len() > n {
        assert(s.skip(k) =~= s.skip(s.len() - n));
    } else {
        assert(s.skip(k) =~= s);
    }
}

proof fn lemma_keep_last_twice<T>(a: Seq<T>, b: Seq<T>, n: nat)
    ensures
        keep_last(keep_last(a, n) + b, n) == keep_last(a + b, n),
{
    if a.len() > n {
        let k = a.len() - n;
        assert(a.skip(k) + b =~= (a + b).skip(k));
        lemma_keep_last_suffix(a + b, k, n);
    }
}

proof fn lemma_print_more(h: Seq<(Seq<char>, DosColor)>, m: Seq<(Seq<char>, DosColor)>, t: Seq<char>, c: DosColor)
    ensures
        keep_last(print_all(h, m) + colour_lines(t, c), 200) == print_all(h, m.push((t, c))),
{
    let m2 = m.push((t, c));
    assert(m2.drop_last() =~= m);
    assert(flat_lines(m2) == flat_lines(m) + colour_lines(t, c));
    if m.len() == 0 {
        assert(flat_lines(m) =~= Seq::<(Seq<char>, DosColor)>::empty());
        assert(h + flat_lines(m2) =~= h + colour_lines(t, c));
    } else {
        lemma_keep_last_twice(h + flat_lines(m), colour_lines(t, c), 200);
        assert(h + flat_lines(m) + colour_lines(t, c) =~= h + flat_lines(m2));
    }
}

pub(crate) proof fn lemma_trim_first(s: Seq<char>)
    requires
        trim(s).len() > 0,
    ensures
        words(trim(s)).len() > 0,
{
    lemma_trim_start_len(s);
    let t = trim_start(s);
    lemma_trim_end_len(t);
    assert(trim(s)[0] == t[0]);
    assert(trim_start(trim(s)) == trim(s));
}

/// The words as character sequences.
pub open spec fn word_seqs(p: Seq<Vec<char>>) -> Seq<Seq<char>> {
    p.map_values(|w: Vec<char>| w@)
}

/// Reads `cs` as `PEEK` and `POKE` do: hexadecimal after `0x` or `0X`,
/// decimal otherwise.
fn hex_or_dec_chars(cs: &[char]) -> (r: Result<usize, ()>)
    ensures
        r is Ok <==> hex_or_dec(cs@) is Some,
        r is Ok ==> hex_or_dec(cs@) == Some(r->Ok_0 as nat),
{
    let max = usize::MAX as u64;
    let v = if cs.len() >= 2 && cs[0] == '0' && (cs[1] == 'x' || cs[1] == 'X') {
        let rest = vstd::slice::slice_subrange(cs, 2, cs.len());
        assert(rest@ =~= cs@.skip(2));
        parse_unsigned_chars(rest, 16, max)
    } else {
        parse_unsigned_chars(cs, 10, max)
    };
    match v {
        Some(n) => Ok(n as usize),
        None => Err(()),
    }
}

/// Reads `s` as a hexadecimal number after `0x` or `0X`, as a decimal one
/// otherwise; `Err` when it is neither or exceeds the largest `usize`.
pub fn parse_hex_or_dec(s: &str) -> (r: Result<usize, ()>)
    ensures
        r is Ok <==> hex_or_dec(s@) is Some,
        r is Ok ==> hex_or_dec(s@) == Some(r->Ok_0 as nat),
{
    let cs = chars_of(s);
    hex_or_dec_chars(&cs)
}

/// The words `ws` joined by single spaces.
pub(crate) fn join_with_spaces(ws: &[Vec<char>]) -> (r: Vec<char>)
    ensures
        r@ == join_words(word_seqs(ws@)),
{
    let mut r: Vec<char> = Vec::new();
    let mut i: usize = 0;
    while i < ws.len()
        invariant
            i <= ws@.len(),
            r@ == join_words(word_seqs(ws@).take(i as int)),
        decreases ws@.len() - i,
    {
        let ghost before = r@;
        if i > 0 {
            r.push(' ');
        }
        let w = &ws[i];
        let mut j: usize = 0;
        let ghost mid = r@;
        while j < w.len()
            invariant
                j <= w@.len(),
                r@ == mid + w@.take(j as int),
            decreases w@.len() - j,
        {
            r.push(w[j]);
            j = j + 1;
        }
        proof {
            let t = word_seqs(ws@).take(i + 1);
            assert(t.drop_last() =~= word_seqs(ws@).take(i as int));
            assert(w@.take(w@.len() as int) =~= w@);
            assert(t.last() == w@);
            if i == 0 {
                assert(t[0] == w@);
                assert(r@ =~= w@);
            } else {
                assert(mid =~= before + seq![' ']);
                assert(r@ =~= before + seq![' '] + w@);
            }
        }
        i = i + 1;
    }
    assert(word_seqs(ws@).take(ws@.len() as int) =~= word_seqs(ws@));
    r
}

/// The number of non-zero bytes in RAM.
fn count_used_bytes(ram: &[QuatByte; 256]) -> (n: usize)
    ensures
        n == count_used(ram@, 256),
        n <= 256,
{
    let mut n: usize = 0;
    let mut i: usize = 0;
    while i < 256
        invariant
            i <= 256,
            n == count_used(ram@, i as nat),
            n <= i,
        decreases 256 - i,
    {
        if ram[i].0 != 0 {
            n = n + 1;
        }
        i = i + 1;
    }
    n
}

impl QuatDOS {
    /// Prints `text` in colour `color`: each of its lines joins the
    /// scroll-back, which then keeps its last 200 lines.
    pub fn print_color(&mut self, text: &str, color: DosColor)
        ensures
            hist(final(self).history@) == keep_last(hist(old(self).history@) + colour_lines(text@, color), 200),
            final(self).input_buffer == old(self).input_buffer,
            final(self).prompt == old(self).prompt,
            final(self).command_history == old(self).command_history,
            final(self).history_index == old(self).history_index,
            final(self).disk == old(self).disk,
            final(self).vga == old(self).vga,
    {
        let cs = chars_of(text);
        let ls = crate::text::split_lines(&cs);
        let ghost h0 = hist(self.history@);
        let ghost ln = lines(text@);
        let mut i: usize = 0;
        while i < ls.len()
            invariant
                i <= ls@.len(),
                ls@.map_values(|l: Vec<char>| l@) == ln,
                hist(self.history@) == h0 + ln.take(i as int).map_values(|l: Seq<char>| (l, color)),
                self.input_buffer == old(self).input_buffer,
                self.prompt == old(self).prompt,
                self.command_history == old(self).command_history,
                self.history_index == old(self).history_index,
                self.disk == old(self).disk,
                self.vga == old(self).vga,
            decreases ls@.len() - i,
        {
            let ghost before = hist(self.history@);
            let line = string_of(&ls[i]);
            self.history.push((line, color));
            proof {
                assert(ls@.map_values(|l: Vec<char>| l@)[i as int] == ls@[i as int]@);
                assert(hist(self.history@) =~= before.push((ln[i as int], color)));
                assert(ln.take(i + 1).map_values(|l: Seq<char>| (l, color)) =~= ln.take(i as int).map_values(
                    |l: Seq<char>| (l, color),
                ).push((ln[i as int], color)));
            }
            i = i + 1;
        }
        assert(ln.take(ls@.len() as int) =~= ln);
        let len = self.history.len();
        if len > 200 {
            let ghost full = hist(self.history@);
            let tail = self.history.split_off(len - 200);
            self.history = tail;
            assert(hist(self.history@) =~= full.skip(full.len() - 200));
        }
    }

    /// Prints `text` in light grey.
    pub fn print(&mut self, text: &str)
        ensures
            hist(final(self).history@) == keep_last(
                hist(old(self).history@) + colour_lines(text@, DosColor::LightGray),
                200,
            ),
            final(self).input_buffer == old(self).input_buffer,
            final(self).prompt == old(self).prompt,
            final(self).command_history == old(self).command_history,
            final(self).history_index == old(self).history_index,
            final(self).disk == old(self).disk,
            final(self).vga == old(self).vga,
    {
        self.print_color(text, DosColor::LightGray);
    }

    /// Prints `text` and notes it among the messages printed since `h0`.
    fn emit(
        &mut self,
        text: &str,
        color: DosColor,
        h0: Ghost<Seq<(Seq<char>, DosColor)>>,
        msgs: Ghost<Seq<(Seq<char>, DosColor)>>,
    ) -> (out: Ghost<Seq<(Seq<char>, DosColor)>>)
        requires
            hist(old(self).history@) == print_all(h0@, msgs@),
        ensures
            out@ == msgs@.push((text@, color)),
            hist(final(self).history@) == print_all(h0@, out@),
            final(self).input_buffer == old(self).input_buffer,
            final(self).prompt == old(self).prompt,
            final(self).command_history == old(self).command_history,
            final(self).history_index == old(self).history_index,
            final(self).disk == old(self).disk,
            final(self).vga == old(self).vga,
    {
        self.print_color(text, color);
        proof {
            lemma_print_more(h0@, msgs@, text@, color);
        }
        Ghost(msgs@.push((text@, color)))
    }
}

impl QuatDOS {
    /// Runs the command `command` (the first word, in upper case) with the
    /// words `parts` of the line (the command's own word first).  See
    /// `dos_reply` for what it prints and the `dos_*` functions for what it
    /// does to the machine; a format or a `BEEP` asks for a sound.
    #[verifier::rlimit(60)]
    pub fn run_command(
        &mut self,
        command: &[char],
        parts: &[Vec<char>],
        kernel: &mut QuatKernel,
        net: &mut QuatNET,
        pic: &mut QuatPIC,
    ) -> (sound: Option<DosSound>)
        requires
            vga_wf(old(self).vga),
            !draw_overflows(command@, word_seqs(parts@)),
        ensures
            hist(final(self).history@) == (if dos_clears(command@) {
                Seq::empty()
            } else {
                print_all(
                    hist(old(self).history@),
                    dos_reply(command@, word_seqs(parts@), *old(kernel), old(self).disk),
                )
            }),
            dos_machine(
                command@,
                word_seqs(parts@),
                *old(kernel),
                *final(kernel),
                *old(net),
                *final(net),
                *old(pic),
                *final(pic),
                old(self).disk,
                final(self).disk,
                old(self).vga,
                final(self).vga,
                sound,
            ),
            vga_wf(final(self).vga),
            final(self).input_buffer == old(self).input_buffer,
            final(self).prompt == old(self).prompt,
            final(self).command_history == old(self).command_history,
            final(self).history_index == old(self).history_index,
    {
        let ghost c = command@;
        let ghost ws = word_seqs(parts@);
        let ghost h0 = hist(self.history@);
        let ghost k0 = *kernel;
        let ghost d0 = self.disk;
        let ghost m0: Seq<(Seq<char>, DosColor)> = Seq::empty();
        proof {
            lemma_command_words();
        }
        assert(parts@.len() == ws.len());
        assert(forall|i: int| 0 <= i < parts@.len() ==> #[trigger] ws[i] == parts@[i]@);
        if chars_are(command, "HELP") || chars_are(command, "?") {
            let g = self.emit("=== QUATDOS KOMANDE ===", DosColor::Gold, Ghost(h0), Ghost(m0));
            let g = self.emit("  CLS             - Čisti ekran terminala", DosColor::LightGray, Ghost(h0), g);
            let g = self.emit("  VER             - Verzija sistema", DosColor::LightGray, Ghost(h0), g);
            let g = self.emit("  MEM             - Status RAM-a i CPU registara", DosColor::LightGray, Ghost(h0), g);
            let g = self.emit(
                "  PEEK <hex_addr> - Čitanje bajta iz memorije (npr: PEEK 0x70)",
                DosColor::LightGray,
                Ghost(h0),
                g,
            );
            let g = self.emit(
                "  POKE <addr> <val> - Upis u memoriju (npr: POKE 0x10 0xFF)",
                DosColor::LightGray,
                Ghost(h0),
                g,
            );
            let g = self.emit("  RUN <hex_addr>  - Skok na adresu i start CPU-a", DosColor::LightGray, Ghost(h0), g);
            let g = self.emit("  HALT            - Pauziranje CPU-a", DosColor::LightGray, Ghost(h0), g);
            let g = self.emit("  NET <tekst>     - Slanje teksta u QuatNET modem", DosColor::LightGray, Ghost(h0), g);
            let g = self.emit("  IRQ <0-3>       - Test okidač hardverskog prekida", DosColor::LightGray, Ghost(h0), g);
            assert(g@ =~= help_lines());
            return None;
        }
        if chars_are(command, "CLS") || chars_are(command, "CLEAR") {
            self.history.clear();
            assert(hist(self.history@) =~= Seq::<(Seq<char>, DosColor)>::empty());
            return None;
        }
        if chars_are(command, "BASIC") || chars_are(command, "QBASIC") {
            let g = self.emit("🔤 Pokrećem QuatBASIC Interpreter v1.0...", DosColor::LightBlue, Ghost(h0), Ghost(m0));
            let g = self.emit("Prebacujem na QuatBASIC tab...", DosColor::Green, Ghost(h0), g);
            assert(g@ =~= dos_reply(c, ws, k0, d0));
            return None;
        }
        if chars_are(command, "VER") {
            let g = self.emit("QuatDOS v1.00 [Kernel v4.2 - Rust Engine]", DosColor::LightBlue, Ghost(h0), Ghost(m0));
            assert(g@ =~= dos_reply(c, ws, k0, d0));
            return None;
        }
        if chars_are(command, "MEM") {
            let g = self.emit("--- CPU & MEMORY STATUS ---", DosColor::LightGreen, Ghost(h0), Ghost(m0));
            let mut t = String::from_str("PC (Program Counter): 0x");
            push_radix(&mut t, kernel.pc as u64, 16, 2);
            let g = self.emit(t.as_str(), DosColor::LightGreen, Ghost(h0), g);
            let mut t = String::from_str("ACC (Akumulator):     0x");
            push_radix(&mut t, kernel.reg_a.0 as u64, 16, 2);
            let g = self.emit(t.as_str(), DosColor::LightGreen, Ghost(h0), g);
            let mut t = String::from_str("FLAGS (Zero/Carry):   Z:");
            if kernel.reg_a.0 == 0 {
                t.append("1");
            } else {
                t.append("0");
            }
            t.append(" C:0");
            let g = self.emit(t.as_str(), DosColor::LightGreen, Ghost(h0), g);
            let used = count_used_bytes(&kernel.ram);
            let mut t = String::from_str("RAM Upotreba:          ");
            push_radix(&mut t, used as u64, 10, 1);
            t.append("/256 bajtova zauzeto");
            proof {
                crate::text::lemma_radix_nonempty(used as nat, 10);
            }
            let g = self.emit(t.as_str(), DosColor::LightGreen, Ghost(h0), g);
            assert(g@ =~= mem_lines(k0));
            return None;
        }
        if chars_are(command, "PEEK") {
            let g;
            if parts.len() < 2 {
                g = self.emit("Sintaksa: PEEK <adresa>", DosColor::LightRed, Ghost(h0), Ghost(m0));
            } else {
                match hex_or_dec_chars(&parts[1]) {
                    Ok(addr) => {
                        if addr < 256 {
                            let val = kernel.ram[addr].0;
                            let mut t = String::from_str("RAM[0x");
                            push_radix(&mut t, addr as u64, 16, 2);
                            t.append("] = 0x");
                            push_radix(&mut t, val as u64, 16, 2);
                            t.append(" (dec: ");
                            push_radix(&mut t, val as u64, 10, 1);
                            t.append(", bin: 0b");
                            push_radix(&mut t, val as u64, 2, 8);
                            t.append(")");
                            proof {
                                crate::text::lemma_radix_nonempty(val as nat, 10);
                            }
                            g = self.emit(t.as_str(), DosColor::Green, Ghost(h0), Ghost(m0));
                        } else {
                            g = self.emit(
                                "Greška: Adresa van opsega (0x00-0xFF)",
                                DosColor::LightRed,
                                Ghost(h0),
                                Ghost(m0),
                            );
                        }
                    },
                    Err(_) => {
                        g = self.emit("Greška: Nevaljana adresa!", DosColor::LightRed, Ghost(h0), Ghost(m0));
                    },
                }
            }
            assert(g@ =~= dos_reply(c, ws, k0, d0));
            return None;
        }
        if chars_are(command, "POKE") {
            let g;
            if parts.len() < 3 {
                g = self.emit("Sintaksa: POKE <adresa> <vrednost>", DosColor::LightRed, Ghost(h0), Ghost(m0));
            } else {
                let addr_res = hex_or_dec_chars(&parts[1]);
                let val_res = hex_or_dec_chars(&parts[2]);
                match (addr_res, val_res) {
                    (Ok(addr), Ok(val)) => {
                        if addr < 256 && val <= 255 {
                            kernel.ram[addr] = QuatByte(val as u8);
                            let mut t = String::from_str("UPIS: RAM[0x");
                            push_radix(&mut t, addr as u64, 16, 2);
                            t.append("] <- 0x");
                            push_radix(&mut t, val as u64, 16, 2);
                            g = self.emit(t.as_str(), DosColor::Green, Ghost(h0), Ghost(m0));
                        } else {
                            g = self.emit(
                                "Greška: Nevažeći parametri za POKE!",
                                DosColor::LightRed,
                                Ghost(h0),
                                Ghost(m0),
                            );
                        }
                    },
                    _ => {
                        g = self.emit(
                            "Greška: Nevažeći parametri za POKE!",
                            DosColor::LightRed,
                            Ghost(h0),
                            Ghost(m0),
                        );
                    },
                }
            }
            assert(g@ =~= dos_reply(c, ws, k0, d0));
            return None;
        }
        if chars_are(command, "RUN") {
            if parts.len() >= 2 {
                match hex_or_dec_chars(&parts[1]) {
                    Ok(addr) => {
                        let pc = #[verifier::truncate] (addr as u8);
                        assert(pc == (addr % 256) as u8) by (bit_vector)
                            requires
                                pc == #[verifier::truncate] (addr as u8),
                        ;
                        kernel.pc = pc;
                        kernel.is_running = true;
                        let mut t = String::from_str("🚀 CPU Pokrenut sa adrese 0x");
                        push_radix(&mut t, addr as u64, 16, 2);
                        let g = self.emit(t.as_str(), DosColor::Green, Ghost(h0), Ghost(m0));
                        assert(g@ =~= dos_reply(c, ws, k0, d0));
                    },
                    Err(_) => {
                        assert(dos_reply(c, ws, k0, d0) =~= m0);
                    },
                }
            } else {
                kernel.is_running = true;
                let g = self.emit("🚀 CPU Nastavlja rad...", DosColor::Green, Ghost(h0), Ghost(m0));
                assert(g@ =~= dos_reply(c, ws, k0, d0));
            }
            return None;
        }
        if chars_are(command, "HALT") || chars_are(command, "STOP") {
            kernel.is_running = false;
            let g = self.emit("⏹️ CPU Zaustavljen.", DosColor::Yellow, Ghost(h0), Ghost(m0));
            assert(g@ =~= dos_reply(c, ws, k0, d0));
            return None;
        }
        if chars_are(command, "NET") {
            let g;
            if parts.len() > 1 {
                let rest = vstd::slice::slice_subrange(parts, 1, parts.len());
                assert(word_seqs(rest@) =~= ws.skip(1));
                let msg = join_with_spaces(rest);
                let mut out = string_of(&msg);
                out.append("\r\n");
                net.send_string(out.as_str());
                let mut t = String::from_str("[NET OUT]: ");
                push_chars(&mut t, &msg);
                g = self.emit(t.as_str(), DosColor::Cyan, Ghost(h0), Ghost(m0));
            } else {
                g = self.emit("Sintaksa: NET <poruka za slanje>", DosColor::LightRed, Ghost(h0), Ghost(m0));
            }
            assert(g@ =~= dos_reply(c, ws, k0, d0));
            return None;
        }
        if chars_are(command, "IRQ") {
            if parts.len() >= 2 {
                match parse_unsigned_chars(&parts[1], 10, 255) {
                    Some(irq) => {
                        if irq <= 3 {
                            pic.trigger_irq(irq as u8, kernel);
                            let mut t = String::from_str("⚡ Trigorvan IRQ");
                            push_radix(&mut t, irq, 10, 1);
                            proof {
                                crate::text::lemma_radix_nonempty(irq as nat, 10);
                            }
                            let g = self.emit(t.as_str(), DosColor::Yellow, Ghost(h0), Ghost(m0));
                            assert(g@ =~= dos_reply(c, ws, k0, d0));
                        } else {
                            let g = self.emit("IRQ mora biti između 0 i 3", DosColor::LightRed, Ghost(h0), Ghost(m0));
                            assert(g@ =~= dos_reply(c, ws, k0, d0));
                        }
                    },
                    None => {
                        assert(dos_reply(c, ws, k0, d0) =~= m0);
                    },
                }
            } else {
                assert(dos_reply(c, ws, k0, d0) =~= m0);
            }
            return None;
        }
        if chars_are(command, "DIR") {
            let is_a = parts.len() >= 2 && {
                let up = upper_chars(&parts[1]);
                chars_are(&up, "A:")
            };
            let g;
            if is_a {
                if self.disk.image.is_some() {
                    let mut t = String::from_str(" Volume in drive A is ");
                    t.append(self.disk.label.as_str());
                    let g1 = self.emit(t.as_str(), DosColor::White, Ghost(h0), Ghost(m0));
                    let g1 = self.emit(" Directory of A:\\", DosColor::LightGray, Ghost(h0), g1);
                    let g1 = self.emit("", DosColor::LightGray, Ghost(h0), g1);
                    let g1 = self.emit("COMMAND  COM        45,056 04-09-95  12:00p", DosColor::LightGray, Ghost(h0), g1);
                    let g1 = self.emit("AUTOEXEC BAT           128 04-09-95  12:01p", DosColor::LightGray, Ghost(h0), g1);
                    let g1 = self.emit("CONFIG   SYS           256 04-09-95  12:01p", DosColor::LightGray, Ghost(h0), g1);
                    let g1 = self.emit("         3 File(s)     45,440 bytes", DosColor::LightGray, Ghost(h0), g1);
                    g = self.emit("                  1,429,120 bytes free", DosColor::LightGray, Ghost(h0), g1);
                } else {
                    g = self.emit(
                        "Not ready reading drive A: Abort, Retry, Fail?",
                        DosColor::Red,
                        Ghost(h0),
                        Ghost(m0),
                    );
                }
            } else {
                g = self.emit("Directory of C:\\ ...", DosColor::LightGray, Ghost(h0), Ghost(m0));
            }
            assert(g@ =~= dos_reply(c, ws, k0, d0));
            return None;
        }
        if chars_are(command, "FORMAT") {
            let is_a = parts.len() >= 2 && {
                let up = upper_chars(&parts[1]);
                chars_are(&up, "A:")
            };
            if is_a {
                self.disk.insert_blank_disk("FORMATTED");
                let g = self.emit("Insert new diskette for drive A:", DosColor::Yellow, Ghost(h0), Ghost(m0));
                let g = self.emit("Formatting 1.44M... Format complete.", DosColor::Green, Ghost(h0), g);
                assert(g@ =~= dos_reply(c, ws, k0, d0));
                return Some(DosSound::FormatChirp);
            } else {
                let g = self.emit("Upotreba: FORMAT A:", DosColor::LightGray, Ghost(h0), Ghost(m0));
                assert(g@ =~= dos_reply(c, ws, k0, d0));
                return None;
            }
        }
        if chars_are(command, "MODE") {
            let g;
            if parts.len() >= 2 && chars_are(&parts[1], "13H") {
                self.vga.demo_mode = 1;
                g = self.emit(
                    "🖥️ Prebačeno u Mode 13h (320x200x256). Grafički režim aktivan!",
                    DosColor::Green,
                    Ghost(h0),
                    Ghost(m0),
                );
            } else {
                g = self.emit("Upotreba: MODE 13H", DosColor::LightGray, Ghost(h0), Ghost(m0));
            }
            assert(g@ =~= dos_reply(c, ws, k0, d0));
            return None;
        }
        if chars_are(command, "DEMO") {
            let g;
            if parts.len() >= 2 {
                let name = &parts[1];
                if chars_are(name, "PLASMA") {
                    self.vga.demo_mode = 1;
                } else if chars_are(name, "FIRE") {
                    self.vga.demo_mode = 2;
                } else if chars_are(name, "STARS") {
                    self.vga.demo_mode = 3;
                } else {
                    self.vga.demo_mode = 0;
                }
                let mut t = String::from_str("🎬 Pokrenut VGA demo: ");
                push_chars(&mut t, name);
                g = self.emit(t.as_str(), DosColor::Yellow, Ghost(h0), Ghost(m0));
            } else {
                g = self.emit(
                    "Dostupni demosi: DEMO PLASMA, DEMO FIRE, DEMO STARS, DEMO OFF",
                    DosColor::LightGray,
                    Ghost(h0),
                    Ghost(m0),
                );
            }
            assert(g@ =~= dos_reply(c, ws, k0, d0));
            return None;
        }
        if chars_are(command, "DRAW") {
            let g;
            if parts.len() >= 6 {
                let max = usize::MAX as u64;
                let x = match parse_unsigned_chars(&parts[1], 10, max) {
                    Some(v) => v as usize,
                    None => 10,
                };
                let y = match parse_unsigned_chars(&parts[2], 10, max) {
                    Some(v) => v as usize,
                    None => 10,
                };
                let w = match parse_unsigned_chars(&parts[3], 10, max) {
                    Some(v) => v as usize,
                    None => 50,
                };
                let h = match parse_unsigned_chars(&parts[4], 10, max) {
                    Some(v) => v as usize,
                    None => 50,
                };
                let color: u8 = match parse_unsigned_chars(&parts[5], 10, 255) {
                    Some(v) => v as u8,
                    None => 14,
                };
                assert((x, y, w, h, color) == draw_args(ws));
                self.vga.demo_mode = 0;
                self.vga.draw_rect(x, y, w, h, color);
                assert(self.vga.vram@ =~= dos_vram(c, ws, old(self).vga.vram@));
                g = self.emit("🎨 Nacrtan pravougaonik u VRAM-u!", DosColor::LightBlue, Ghost(h0), Ghost(m0));
            } else {
                g = self.emit("Upotreba: DRAW x y w h color_index", DosColor::LightGray, Ghost(h0), Ghost(m0));
            }
            assert(g@ =~= dos_reply(c, ws, k0, d0));
            return None;
        }
        if chars_are(command, "BEEP") {
            let freq = if parts.len() >= 2 {
                Some(string_of(&parts[1]))
            } else {
                None
            };
            let ms: u64 = if parts.len() >= 3 {
                match parse_unsigned_chars(&parts[2], 10, u64::MAX) {
                    Some(v) => v,
                    None => 200,
                }
            } else {
                200
            };
            assert(dos_reply(c, ws, k0, d0) =~= m0);
            return Some(DosSound::Beep { freq, ms });
        }
        let mut t = String::from_str("Nepoznata komanda: '");
        push_chars(&mut t, command);
        t.append("'. Kucaj 'HELP' za pomoć.");
        let g = self.emit(t.as_str(), DosColor::LightRed, Ghost(h0), Ghost(m0));
        assert(g@ =~= dos_reply(c, ws, k0, d0));
        None
    }
}

/// The greeting printed when the shell starts.
pub open spec fn dos_greeting() -> Seq<(Seq<char>, DosColor)> {
    seq![
        ("QuatDOS Version 1.00 (C) 2026 QuatEngine Systems"@, DosColor::LightGreen),
        ("Base RAM: 256 Bytes | Base Arch: 4^4 Quat Architecture"@, DosColor::Gray),
        ("Kucaj 'HELP' ili '?' za listu komandi.\n"@, DosColor::Yellow),
    ]
}

/// The scroll-back after the line `raw` was typed at the prompt `prompt`
/// into the scroll-back `h`: the echoed line, then the reply (or nothing
/// at all after `CLS`).
pub open spec fn dos_screen(
    h: Seq<(Seq<char>, DosColor)>,
    prompt: Seq<char>,
    raw: Seq<char>,
    k: QuatKernel,
    d: QuatDisk,
) -> Seq<(Seq<char>, DosColor)> {
    let t = trim(raw);
    let ws = words(t);
    let c = upper_text(ws[0]);
    if dos_clears(c) {
        Seq::empty()
    } else {
        print_all(keep_last(h + colour_lines(prompt + " "@ + t, DosColor::White), 200), dos_reply(c, ws, k, d))
    }
}

impl QuatDOS {
    /// The shell at start-up: an empty history, the prompt `C:\QUAT>`, a
    /// fresh drive and adapter, and the greeting on screen.
    pub fn new() -> (dos: QuatDOS)
        ensures
            hist(dos.history@) == print_all(Seq::empty(), dos_greeting()),
            dos.input_buffer@.len() == 0,
            dos.prompt@ == "C:\\QUAT>"@,
            dos.command_history@.len() == 0,
            dos.history_index == 0,
            dos.disk.image is Some,
            dos.disk.image->0@ == blank_image(),
            dos.disk.label@ == "QUAT_DOS_BOOT"@,
            vga_wf(dos.vga),
            dos.vga.demo_mode == 0,
            forall|i: int| 0 <= i < 64000 ==> #[trigger] dos.vga.vram@[i] == 0,
    {
        let mut dos = QuatDOS {
            history: Vec::new(),
            input_buffer: String::new(),
            prompt: String::from_str("C:\\QUAT>"),
            command_history: Vec::new(),
            history_index: 0,
            disk: QuatDisk::new(),
            vga: QuatVGA::new(),
        };
        let ghost h0: Seq<(Seq<char>, DosColor)> = Seq::empty();
        assert(hist(dos.history@) =~= h0);
        let g = dos.emit(
            "QuatDOS Version 1.00 (C) 2026 QuatEngine Systems",
            DosColor::LightGreen,
            Ghost(h0),
            Ghost(Seq::empty()),
        );
        let g = dos.emit("Base RAM: 256 Bytes | Base Arch: 4^4 Quat Architecture", DosColor::Gray, Ghost(h0), g);
        let g = dos.emit("Kucaj 'HELP' ili '?' za listu komandi.\n", DosColor::Yellow, Ghost(h0), g);
        assert(g@ =~= dos_greeting());
        dos
    }

    /// Runs the line `cmd_raw`.  A blank line does nothing.  Otherwise the
    /// trimmed line is echoed after the prompt in white, recorded in the
    /// command history, and its first word, in upper case, is run as the
    /// command with the line's words (see `run_command`).
    pub fn execute_command(
        &mut self,
        cmd_raw: &str,
        kernel: &mut QuatKernel,
        net: &mut QuatNET,
        pic: &mut QuatPIC,
    ) -> (sound: Option<DosSound>)
        requires
            vga_wf(old(self).vga),
            !line_overflows(cmd_raw@),
        ensures
            vga_wf(final(self).vga),
            trim(cmd_raw@).len() == 0 ==> {
                &&& *final(self) == *old(self)
                &&& *final(kernel) == *old(kernel)
                &&& *final(net) == *old(net)
                &&& *final(pic) == *old(pic)
                &&& sound is None
            },
            trim(cmd_raw@).len() > 0 ==> {
                let t = trim(cmd_raw@);
                let ws = words(t);
                &&& hist(final(self).history@) == dos_screen(
                    hist(old(self).history@),
                    old(self).prompt@,
                    cmd_raw@,
                    *old(kernel),
                    old(self).disk,
                )
                &&& texts(final(self).command_history@) == texts(old(self).command_history@).push(t)
                &&& final(self).history_index == final(self).command_history@.len()
                &&& final(self).prompt == old(self).prompt
                &&& final(self).input_buffer == old(self).input_buffer
                &&& dos_machine(
                    upper_text(ws[0]),
                    ws,
                    *old(kernel),
                    *final(kernel),
                    *old(net),
                    *final(net),
                    *old(pic),
                    *final(pic),
                    old(self).disk,
                    final(self).disk,
                    old(self).vga,
                    final(self).vga,
                    sound,
                )
            },
    {
        let all = chars_of(cmd_raw);
        let trimmed = trim_chars(&all);
        if trimmed.len() == 0 {
            return None;
        }
        let mut echo = self.prompt.clone();
        echo.append(" ");
        push_chars(&mut echo, &trimmed);
        self.print_color(echo.as_str(), DosColor::White);
        let ghost before = texts(self.command_history@);
        self.command_history.push(string_of(&trimmed));
        assert(texts(self.command_history@) =~= before.push(trimmed@));
        self.history_index = self.command_history.len();
        let parts = split_words(&trimmed);
        proof {
            lemma_trim_first(cmd_raw@);
        }
        assert(word_seqs(parts@) == words(trimmed@));
        assert(parts@.len() > 0);
        assert(parts@[0]@ == words(trimmed@)[0]);
        let command = upper_chars(&parts[0]);
        self.run_command(&command, &parts, kernel, net, pic)
    }

    /// Runs the line `cmd_raw` as `execute_command` does, unless it is a
    /// `DRAW` whose rectangle would step past the largest `usize`: then
    /// nothing changes and the result is `None`.
    pub fn execute_checked(
        &mut self,
        cmd_raw: &str,
        kernel: &mut QuatKernel,
        net: &mut QuatNET,
        pic: &mut QuatPIC,
    ) -> (r: Option<Option<DosSound>>)
        requires
            vga_wf(old(self).vga),
        ensures
            vga_wf(final(self).vga),
            r is None <==> line_overflows(cmd_raw@),
            r is None ==> *final(self) == *old(self) && *final(kernel) == *old(kernel) && *final(net) == *old(
                net,
            ) && *final(pic) == *old(pic),
            r is Some && trim(cmd_raw@).len() == 0 ==> {
                &&& *final(self) == *old(self)
                &&& *final(kernel) == *old(kernel)
                &&& *final(net) == *old(net)
                &&& *final(pic) == *old(pic)
                &&& r->0 is None
            },
            r is Some && trim(cmd_raw@).len() > 0 ==> {
                let t = trim(cmd_raw@);
                let ws = words(t);
                &&& hist(final(self).history@) == dos_screen(
                    hist(old(self).history@),
                    old(self).prompt@,
                    cmd_raw@,
                    *old(kernel),
                    old(self).disk,
                )
                &&& texts(final(self).command_history@) == texts(old(self).command_history@).push(t)
                &&& final(self).history_index == final(self).command_history@.len()
                &&& final(self).prompt == old(self).prompt
                &&& final(self).input_buffer == old(self).input_buffer
                &&& dos_machine(
                    upper_text(ws[0]),
                    ws,
                    *old(kernel),
                    *final(kernel),
                    *old(net),
                    *final(net),
                    *old(pic),
                    *final(pic),
                    old(self).disk,
                    final(self).disk,
                    old(self).vga,
                    final(self).vga,
                    r->0,
                )
            },
    {
        let all = chars_of(cmd_raw);
        let trimmed = trim_chars(&all);
        if trimmed.len() > 0 {
            let parts = split_words(&trimmed);
            proof {
                lemma_trim_first(cmd_raw@);
            }
            assert(word_seqs(parts@) == words(trimmed@));
            assert(parts@[0]@ == words(trimmed@)[0]);
            let command = upper_chars(&parts[0]);
            if chars_are(&command, "DRAW") && parts.len() >= 6 {
                let max = usize::MAX as u64;
                let x = match parse_unsigned_chars(&parts[1], 10, max) {
                    Some(v) => v as usize,
                    None => 10,
                };
                let y = match parse_unsigned_chars(&parts[2], 10, max) {
                    Some(v) => v as usize,
                    None => 10,
                };
                let w = match parse_unsigned_chars(&parts[3], 10, max) {
                    Some(v) => v as usize,
                    None => 50,
                };
                let h = match parse_unsigned_chars(&parts[4], 10, max) {
                    Some(v) => v as usize,
                    None => 50,
                };
                proof {
                    assert(parts@[1]@ == words(trimmed@)[1]);
                    assert(parts@[2]@ == words(trimmed@)[2]);
                    assert(parts@[3]@ == words(trimmed@)[3]);
                    assert(parts@[4]@ == words(trimmed@)[4]);
                    assert(parts@[5]@ == words(trimmed@)[5]);
                }
                let x_over = w > 0 && x > usize::MAX - (w - 1);
                let y_over = h > 0 && y > usize::MAX - (h - 1);
                if w > 0 && h > 0 && (x_over || y_over) {
                    return None;
                }
            }
        }
        Some(self.execute_command(cmd_raw, kernel, net, pic))
    }
}

} // verus!
