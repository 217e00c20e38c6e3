use quatos::kernel::{QuatByte, QuatKernel};
use quatos::quat_dos::{parse_hex_or_dec, DosColor, DosSound, QuatDOS};
use quatos::quat_net::QuatNET;
use quatos::quat_pic::QuatPIC;
use quatos::terminal::{QuatTerminal, TermColor};

fn machine() -> (QuatDOS, QuatKernel, QuatNET, QuatPIC) {
    (QuatDOS::new(), QuatKernel::new(), QuatNET::new(), QuatPIC::new())
}

fn last_texts(dos: &QuatDOS, n: usize) -> Vec<String> {
    dos.history[dos.history.len() - n..].iter().map(|(t, _)| t.clone()).collect()
}

#[test]
fn dos_greets() {
    let dos = QuatDOS::new();
    assert_eq!(dos.prompt, "C:\\QUAT>");
    assert_eq!(dos.history.len(), 3);
    assert_eq!(dos.history[0], ("QuatDOS Version 1.00 (C) 2026 QuatEngine Systems".to_string(), DosColor::LightGreen));
    assert_eq!(dos.history[2], ("Kucaj 'HELP' ili '?' za listu komandi.".to_string(), DosColor::Yellow));
}

#[test]
fn dos_blank_line_does_nothing() {
    let (mut dos, mut k, mut n, mut p) = machine();
    let r = dos.execute_command("   ", &mut k, &mut n, &mut p);
    assert!(r.is_none());
    assert_eq!(dos.history.len(), 3);
    assert!(dos.command_history.is_empty());
}

#[test]
fn dos_echoes_and_answers_ver() {
    let (mut dos, mut k, mut n, mut p) = machine();
    dos.execute_command("  ver ", &mut k, &mut n, &mut p);
    assert_eq!(dos.history[3], ("C:\\QUAT> ver".to_string(), DosColor::White));
    assert_eq!(dos.history[4], ("QuatDOS v1.00 [Kernel v4.2 - Rust Engine]".to_string(), DosColor::LightBlue));
    assert_eq!(dos.command_history, vec!["ver".to_string()]);
    assert_eq!(dos.history_index, 1);
}

#[test]
fn dos_help_lists_commands() {
    let (mut dos, mut k, mut n, mut p) = machine();
    dos.execute_command("?", &mut k, &mut n, &mut p);
    assert_eq!(dos.history.len(), 3 + 1 + 10);
    assert_eq!(dos.history[4], ("=== QUATDOS KOMANDE ===".to_string(), DosColor::Gold));
}

#[test]
fn dos_poke_then_peek() {
    let (mut dos, mut k, mut n, mut p) = machine();
    dos.execute_command("POKE 0x10 0xFF", &mut k, &mut n, &mut p);
    assert_eq!(k.ram[16], QuatByte(255));
    assert_eq!(last_texts(&dos, 1), vec!["UPIS: RAM[0x10] <- 0xFF".to_string()]);
    dos.execute_command("peek 16", &mut k, &mut n, &mut p);
    assert_eq!(last_texts(&dos, 1), vec!["RAM[0x10] = 0xFF (dec: 255, bin: 0b11111111)".to_string()]);
    dos.execute_command("peek 0X01", &mut k, &mut n, &mut p);
    assert_eq!(last_texts(&dos, 1), vec!["RAM[0x01] = 0x05 (dec: 5, bin: 0b00000101)".to_string()]);
}

#[test]
fn dos_peek_and_poke_errors() {
    let (mut dos, mut k, mut n, mut p) = machine();
    dos.execute_command("peek", &mut k, &mut n, &mut p);
    assert_eq!(dos.history.last().unwrap(), &("Sintaksa: PEEK <adresa>".to_string(), DosColor::LightRed));
    dos.execute_command("peek 300", &mut k, &mut n, &mut p);
    assert_eq!(last_texts(&dos, 1), vec!["Greška: Adresa van opsega (0x00-0xFF)".to_string()]);
    dos.execute_command("peek zz", &mut k, &mut n, &mut p);
    assert_eq!(last_texts(&dos, 1), vec!["Greška: Nevaljana adresa!".to_string()]);
    dos.execute_command("poke 1", &mut k, &mut n, &mut p);
    assert_eq!(last_texts(&dos, 1), vec!["Sintaksa: POKE <adresa> <vrednost>".to_string()]);
    dos.execute_command("poke 1 256", &mut k, &mut n, &mut p);
    assert_eq!(last_texts(&dos, 1), vec!["Greška: Nevažeći parametri za POKE!".to_string()]);
    assert_eq!(k.ram[1], QuatByte(5));
}

#[test]
fn dos_run_and_halt() {
    let (mut dos, mut k, mut n, mut p) = machine();
    dos.execute_command("run 0x1F", &mut k, &mut n, &mut p);
    assert_eq!(k.pc, 31);
    assert!(k.is_running);
    assert_eq!(last_texts(&dos, 1), vec!["🚀 CPU Pokrenut sa adrese 0x1F".to_string()]);
    dos.execute_command("halt", &mut k, &mut n, &mut p);
    assert!(!k.is_running);
    dos.execute_command("run", &mut k, &mut n, &mut p);
    assert!(k.is_running);
    assert_eq!(k.pc, 31);
    dos.execute_command("run 300", &mut k, &mut n, &mut p);
    assert_eq!(k.pc, 44);
    let len = dos.history.len();
    dos.execute_command("run xyz", &mut k, &mut n, &mut p);
    assert_eq!(dos.history.len(), len + 1);
}

#[test]
fn dos_net_sends_line() {
    let (mut dos, mut k, mut n, mut p) = machine();
    dos.execute_command("net hello   world", &mut k, &mut n, &mut p);
    let sent: Vec<u8> = n.tx_buffer.iter().cloned().collect();
    assert_eq!(sent, b"hello world\r\n".to_vec());
    assert_eq!(dos.history.last().unwrap(), &("[NET OUT]: hello world".to_string(), DosColor::Cyan));
}

#[test]
fn dos_irq_raises_line() {
    let (mut dos, mut k, mut n, mut p) = machine();
    dos.execute_command("irq 2", &mut k, &mut n, &mut p);
    assert_eq!(p.irq_pending, 4);
    assert_eq!(k.ram[0x72], QuatByte(4));
    assert_eq!(last_texts(&dos, 1), vec!["⚡ Trigorvan IRQ2".to_string()]);
    dos.execute_command("irq 9", &mut k, &mut n, &mut p);
    assert_eq!(last_texts(&dos, 1), vec!["IRQ mora biti između 0 i 3".to_string()]);
    assert_eq!(p.irq_pending, 4);
}

#[test]
fn dos_cls_clears_screen() {
    let (mut dos, mut k, mut n, mut p) = machine();
    dos.execute_command("CLS", &mut k, &mut n, &mut p);
    assert!(dos.history.is_empty());
    assert_eq!(dos.command_history, vec!["CLS".to_string()]);
}

#[test]
fn dos_dir_of_drive_a() {
    let (mut dos, mut k, mut n, mut p) = machine();
    dos.execute_command("dir a:", &mut k, &mut n, &mut p);
    assert_eq!(dos.history.len(), 3 + 1 + 7);
    assert_eq!(dos.history[4].0, " Volume in drive A is QUAT_DOS_BOOT");
    assert_eq!(dos.history[5].0, " Directory of A:\\");
    assert_eq!(dos.history[6].0, "COMMAND  COM        45,056 04-09-95  12:00p");
    dos.disk.eject();
    dos.execute_command("DIR A:", &mut k, &mut n, &mut p);
    assert_eq!(dos.history.last().unwrap(), &("Not ready reading drive A: Abort, Retry, Fail?".to_string(), DosColor::Red));
    dos.execute_command("dir", &mut k, &mut n, &mut p);
    assert_eq!(last_texts(&dos, 1), vec!["Directory of C:\\ ...".to_string()]);
}

#[test]
fn dos_format_asks_for_chirp() {
    let (mut dos, mut k, mut n, mut p) = machine();
    let s = dos.execute_command("format a:", &mut k, &mut n, &mut p);
    assert_eq!(s, Some(DosSound::FormatChirp));
    assert_eq!(dos.disk.label, "FORMATTED");
    assert_eq!(last_texts(&dos, 2), vec!["Insert new diskette for drive A:".to_string(), "Formatting 1.44M... Format complete.".to_string()]);
    let s = dos.execute_command("format c:", &mut k, &mut n, &mut p);
    assert_eq!(s, None);
    assert_eq!(last_texts(&dos, 1), vec!["Upotreba: FORMAT A:".to_string()]);
}

#[test]
fn dos_graphics_commands() {
    let (mut dos, mut k, mut n, mut p) = machine();
    dos.execute_command("demo FIRE", &mut k, &mut n, &mut p);
    assert_eq!(dos.vga.demo_mode, 2);
    assert_eq!(last_texts(&dos, 1), vec!["🎬 Pokrenut VGA demo: FIRE".to_string()]);
    dos.execute_command("demo off", &mut k, &mut n, &mut p);
    assert_eq!(dos.vga.demo_mode, 0);
    dos.execute_command("mode 13H", &mut k, &mut n, &mut p);
    assert_eq!(dos.vga.demo_mode, 1);
    dos.execute_command("draw 0 0 2 2 5", &mut k, &mut n, &mut p);
    assert_eq!(dos.vga.demo_mode, 0);
    assert_eq!(dos.vga.vram[0], 5);
    assert_eq!(dos.vga.vram[1], 5);
    assert_eq!(dos.vga.vram[320], 5);
    assert_eq!(dos.vga.vram[321], 5);
    assert_eq!(dos.vga.vram[2], 0);
    assert_eq!(dos.vga.vram[640], 0);
    dos.execute_command("draw x y w h c", &mut k, &mut n, &mut p);
    assert_eq!(dos.vga.vram[10 * 320 + 10], 14);
    assert_eq!(dos.vga.vram[59 * 320 + 59], 14);
    assert_eq!(dos.vga.vram[60 * 320 + 60], 0);
}

#[test]
fn dos_beep_requests() {
    let (mut dos, mut k, mut n, mut p) = machine();
    let len = dos.history.len();
    let s = dos.execute_command("beep 880 300", &mut k, &mut n, &mut p);
    assert_eq!(s, Some(DosSound::Beep { freq: Some("880".to_string()), ms: 300 }));
    assert_eq!(dos.history.len(), len + 1);
    let s = dos.execute_command("beep 100 x", &mut k, &mut n, &mut p);
    assert_eq!(s, Some(DosSound::Beep { freq: Some("100".to_string()), ms: 200 }));
    let s = dos.execute_command("beep", &mut k, &mut n, &mut p);
    assert_eq!(s, Some(DosSound::Beep { freq: None, ms: 200 }));
}

#[test]
fn dos_unknown_command() {
    let (mut dos, mut k, mut n, mut p) = machine();
    dos.execute_command("xyz 1", &mut k, &mut n, &mut p);
    assert_eq!(dos.history.last().unwrap(), &("Nepoznata komanda: 'XYZ'. Kucaj 'HELP' za pomoć.".to_string(), DosColor::LightRed));
}

#[test]
fn dos_mem_report() {
    let (mut dos, mut k, mut n, mut p) = machine();
    dos.execute_command("mem", &mut k, &mut n, &mut p);
    assert_eq!(
        last_texts(&dos, 5),
        vec![
            "--- CPU & MEMORY STATUS ---".to_string(),
            "PC (Program Counter): 0x00".to_string(),
            "ACC (Akumulator):     0x00".to_string(),
            "FLAGS (Zero/Carry):   Z:1 C:0".to_string(),
            "RAM Upotreba:          2/256 bajtova zauzeto".to_string(),
        ]
    );
}

#[test]
fn dos_scrollback_keeps_200_lines() {
    let (mut dos, mut k, mut n, mut p) = machine();
    for _ in 0..150 {
        dos.execute_command("ver", &mut k, &mut n, &mut p);
    }
    assert_eq!(dos.history.len(), 200);
    assert_eq!(dos.history[199].0, "QuatDOS v1.00 [Kernel v4.2 - Rust Engine]");
    assert_eq!(dos.history[198].0, "C:\\QUAT> ver");
}

#[test]
fn dos_reads_numbers() {
    assert_eq!(parse_hex_or_dec("0x1F"), Ok(31));
    assert_eq!(parse_hex_or_dec("0X10"), Ok(16));
    assert_eq!(parse_hex_or_dec("42"), Ok(42));
    assert_eq!(parse_hex_or_dec("+7"), Ok(7));
    assert_eq!(parse_hex_or_dec("0x"), Err(()));
    assert_eq!(parse_hex_or_dec("zz"), Err(()));
    assert_eq!(parse_hex_or_dec("-1"), Err(()));
}

#[test]
fn dos_checked_refuses_overflowing_draw() {
    let (mut dos, mut k, mut n, mut p) = machine();
    let big = format!("draw {} 0 2 2 1", usize::MAX);
    let len = dos.history.len();
    assert_eq!(dos.execute_checked(&big, &mut k, &mut n, &mut p), None);
    assert_eq!(dos.history.len(), len);
    assert_eq!(dos.execute_checked("ver", &mut k, &mut n, &mut p), Some(None));
    assert_eq!(dos.history.len(), len + 2);
}

#[test]
fn terminal_greets_and_helps() {
    let mut t = QuatTerminal::new();
    let mut k = QuatKernel::new();
    assert_eq!(t.history.len(), 2);
    assert_eq!(t.history[0].text, "QuatOS Shell v4.4 (256-State Architecture)");
    t.input_buffer = "HELP".to_string();
    t.execute(&mut k);
    assert_eq!(t.history.len(), 2 + 1 + 9);
    assert_eq!(t.history[2].text, "quat@kernel:~ $ HELP");
    assert_eq!(t.history[2].color, TermColor::White);
    assert!(t.input_buffer.is_empty());
    assert_eq!(t.cmd_history, vec!["HELP".to_string()]);
}

#[test]
fn terminal_quat_conversion() {
    let mut t = QuatTerminal::new();
    let mut k = QuatKernel::new();
    t.input_buffer = "quat 42".to_string();
    t.execute(&mut k);
    assert_eq!(t.history.last().unwrap().text, "Dekadno: 42 -> Kvatarni format: [0] [2] [2] [2]");
    t.input_buffer = "quat 300".to_string();
    t.execute(&mut k);
    assert_eq!(t.history.last().unwrap().text, "Greška: Unesite broj između 0 i 255.");
    assert_eq!(t.history.last().unwrap().color, TermColor::Red);
    t.input_buffer = "quat".to_string();
    t.execute(&mut k);
    assert_eq!(t.history.last().unwrap().text, "Upotreba: quat <0-255>");
}

#[test]
fn terminal_memory_dump_and_step() {
    let mut t = QuatTerminal::new();
    let mut k = QuatKernel::new();
    t.input_buffer = "mem 254".to_string();
    t.execute(&mut k);
    let n = t.history.len();
    assert_eq!(t.history[n - 3].text, "RAM Ispis od adrese FE:");
    assert_eq!(t.history[n - 2].text, "  [FE]: RAW=000 | Quats=0000");
    assert_eq!(t.history[n - 1].text, "  [FF]: RAW=000 | Quats=0000");
    t.input_buffer = "mem".to_string();
    t.execute(&mut k);
    let n = t.history.len();
    assert_eq!(t.history[n - 9].text, "RAM Ispis od adrese 00:");
    assert_eq!(t.history[n - 8].text, "  [00]: RAW=010 | Quats=0022");
    t.input_buffer = "step".to_string();
    t.execute(&mut k);
    assert_eq!(k.reg_a, QuatByte(10));
    t.input_buffer = "sysinfo".to_string();
    t.execute(&mut k);
    let n = t.history.len();
    assert_eq!(t.history[n - 3].text, "PC (Program Counter): 01");
    assert_eq!(t.history[n - 2].text, "RegA: 010 | Quats: [0022]");
    assert_eq!(t.history[n - 1].text, "RegB: 000 | Quats: [0000]");
}

#[test]
fn terminal_echo_clear_and_unknown() {
    let mut t = QuatTerminal::new();
    let mut k = QuatKernel::new();
    t.input_buffer = "echo  a   b ".to_string();
    t.execute(&mut k);
    assert_eq!(t.history.last().unwrap().text, "a b");
    t.input_buffer = "Foo".to_string();
    t.execute(&mut k);
    assert_eq!(t.history.last().unwrap().text, "Nepoznata komanda: 'foo'. Kucajte 'help'.");
    t.input_buffer = "clear".to_string();
    t.execute(&mut k);
    assert!(t.history.is_empty());
    t.input_buffer = format!("mem {}", usize::MAX);
    assert!(!t.execute_checked(&mut k));
    assert!(t.history.is_empty());
}
