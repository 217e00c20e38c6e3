use quatos::quat_basic::{decode_statement, BasicCommand, BasicStatement, QuatBASIC};
use quatos::quat_vga::QuatVGA;

fn run_program(basic: &mut QuatBASIC, vga: &mut QuatVGA) -> Vec<BasicStatement> {
    let mut finished = Vec::new();
    let (nums, mut pc) = basic.start_run();
    let mut guard = 0;
    while let Some(i) = pc {
        guard += 1;
        assert!(guard < 1000, "the program did not stop");
        let st = basic.run_line(&nums, i, vga).expect("line breaks");
        let goto = match st {
            BasicStatement::Goto(n) => Some(n),
            _ => None,
        };
        finished.push(st);
        pc = basic.advance(&nums, i, goto);
    }
    finished
}

#[test]
fn basic_starts_with_demo_program() {
    let b = QuatBASIC::new();
    assert_eq!(b.lines.len(), 8);
    assert_eq!(b.lines[&10], "REM *** QuatBASIC Demo Program ***");
    assert_eq!(b.lines[&30], "PRINT \"Pokrecem QuatBASIC Hardverski Test...\"");
    assert_eq!(b.lines[&70], "PSET 160, 100, 14");
    assert!(b.console_output.is_empty());
    assert!(b.input_line.is_empty());
    assert_eq!(b.status_msg, "QuatBASIC v1.0 Ready.");
}

#[test]
fn basic_decodes_print_and_remarks() {
    assert!(matches!(decode_statement("PRINT \"HI\""), Some(BasicStatement::PrintText(t)) if t == "HI"));
    assert!(matches!(decode_statement("print   \"a b\"  "), Some(BasicStatement::PrintText(t)) if t == "a b"));
    assert!(matches!(decode_statement("PRINT A"), Some(BasicStatement::PrintValue(t)) if t == "A"));
    assert!(matches!(decode_statement("PRINT \"open"), Some(BasicStatement::PrintValue(t)) if t == "\"open"));
    assert!(matches!(decode_statement("PRINT \"\""), Some(BasicStatement::PrintText(t)) if t.is_empty()));
    assert!(matches!(decode_statement("PRINT"), Some(BasicStatement::Nothing)));
    assert!(matches!(decode_statement("PRINT "), Some(BasicStatement::Nothing)));
    assert!(matches!(decode_statement("   "), Some(BasicStatement::Nothing)));
    assert!(matches!(decode_statement("  REM note"), Some(BasicStatement::Nothing)));
    assert!(matches!(decode_statement("REMARK"), Some(BasicStatement::Nothing)));
    assert!(decode_statement("PRINT \"").is_none());
    assert!(decode_statement("PRINT\u{a0}\"x\"").is_none());
}

#[test]
fn basic_decodes_sound_and_pixels() {
    assert!(matches!(decode_statement("cls"), Some(BasicStatement::Cls)));
    assert!(matches!(decode_statement("BEEP 440, 150"), Some(BasicStatement::Beep(f, 150)) if f == "440"));
    assert!(matches!(decode_statement("BEEP"), Some(BasicStatement::Beep(f, 200)) if f.is_empty()));
    assert!(matches!(decode_statement("BEEP 1000"), Some(BasicStatement::Beep(f, 200)) if f == "1000"));
    assert!(matches!(decode_statement("BEEP 5, x"), Some(BasicStatement::Beep(f, 200)) if f == "5"));
    assert!(matches!(decode_statement("BEEP 2 5 0, 3 0"), Some(BasicStatement::Beep(f, 30)) if f == "250"));
    assert!(matches!(decode_statement("PSET 160, 100, 14"), Some(BasicStatement::Pset(160, 100, 14))));
    assert!(matches!(decode_statement("PSET a, 2, 999"), Some(BasicStatement::Pset(0, 2, 15))));
    assert!(matches!(decode_statement("PSET 1,2"), Some(BasicStatement::Nothing)));
    assert!(matches!(decode_statement("pset 1,2,3,4"), Some(BasicStatement::Pset(1, 2, 3))));
}

#[test]
fn basic_decodes_variables_and_jumps() {
    assert!(matches!(decode_statement("LET A = 10"), Some(BasicStatement::Assign(n, v)) if n == "A" && v == "10"));
    assert!(matches!(decode_statement("LET A 10"), Some(BasicStatement::Nothing)));
    assert!(matches!(decode_statement("B = 5"), Some(BasicStatement::Assign(n, v)) if n == "B" && v == "5"));
    assert!(matches!(decode_statement("GOTO 30"), Some(BasicStatement::Goto(30))));
    assert!(matches!(decode_statement("goto +7"), Some(BasicStatement::Goto(7))));
    assert!(matches!(decode_statement("GOTO x"), Some(BasicStatement::Nothing)));
    assert!(matches!(decode_statement("GOTO"), Some(BasicStatement::Nothing)));
    assert!(matches!(decode_statement("foo bar"), Some(BasicStatement::Syntax(c)) if c == "FOO"));
}

#[test]
fn basic_executes_in_place() {
    let mut b = QuatBASIC::new();
    let mut vga = QuatVGA::new();
    b.execute_line("PRINT \"HI\"", &mut vga);
    b.execute_line("FOO", &mut vga);
    assert_eq!(b.console_output, vec!["HI".to_string(), "Syntax error: FOO".to_string()]);
    b.execute_line("PSET 160, 100, 14", &mut vga);
    assert_eq!(vga.vram[100 * 320 + 160], 14);
    b.execute_line("PSET 400, 1, 9", &mut vga);
    assert_eq!(vga.vram.iter().filter(|&&c| c != 0).count(), 1);
    let st = b.execute_line("LET A = 3", &mut vga);
    assert!(matches!(st, Some(BasicStatement::Assign(_, _))));
    assert_eq!(b.console_output.len(), 2);
    b.execute_line("CLS", &mut vga);
    assert!(b.console_output.is_empty());
    assert!(vga.vram.iter().all(|&c| c == 0));
    let before = b.console_output.clone();
    assert!(b.execute_line("PRINT \"", &mut vga).is_none());
    assert_eq!(b.console_output, before);
}

#[test]
fn basic_edits_program_lines() {
    let mut b = QuatBASIC::new();
    let mut vga = QuatVGA::new();
    b.input_line = "  25 PRINT \"X\"  ".to_string();
    assert!(matches!(b.process_input(&mut vga), Some(BasicCommand::Done)));
    assert_eq!(b.lines[&25], "PRINT \"X\"");
    assert!(b.input_line.is_empty());
    b.input_line = "25".to_string();
    b.process_input(&mut vga);
    assert!(!b.lines.contains_key(&25));
    assert_eq!(b.lines.len(), 8);
    b.input_line = "10 PRINT 1".to_string();
    b.process_input(&mut vga);
    assert_eq!(b.lines[&10], "PRINT 1");
    b.input_line = "   ".to_string();
    assert!(matches!(b.process_input(&mut vga), Some(BasicCommand::Done)));
    assert_eq!(b.input_line, "   ");
}

#[test]
fn basic_commands() {
    let mut b = QuatBASIC::new();
    let mut vga = QuatVGA::new();
    b.input_line = "list".to_string();
    b.process_input(&mut vga);
    assert_eq!(b.console_output.len(), 9);
    assert_eq!(b.console_output[0], "--- PROGRAM LISTING ---");
    assert_eq!(b.console_output[1], "0010 REM *** QuatBASIC Demo Program ***");
    assert_eq!(b.console_output[8], "0080 PRINT \"Gotovo! Ready.\"");
    b.input_line = "CLS".to_string();
    b.process_input(&mut vga);
    assert!(b.console_output.is_empty());
    b.input_line = "Run".to_string();
    assert!(matches!(b.process_input(&mut vga), Some(BasicCommand::Run)));
    b.input_line = "PRINT \"now\"".to_string();
    assert!(matches!(b.process_input(&mut vga), Some(BasicCommand::Statement(BasicStatement::PrintText(_)))));
    assert_eq!(b.console_output, vec!["now".to_string()]);
    b.input_line = "PRINT \"".to_string();
    assert!(b.process_input(&mut vga).is_none());
    b.input_line = "new".to_string();
    assert!(matches!(b.process_input(&mut vga), Some(BasicCommand::New)));
    assert!(b.lines.is_empty());
    assert_eq!(b.console_output, vec!["Ready.".to_string()]);
    b.input_line = "LIST".to_string();
    b.process_input(&mut vga);
    assert_eq!(b.console_output, vec!["Ready.".to_string(), "--- PROGRAM LISTING ---".to_string()]);
}

#[test]
fn basic_runs_demo_program() {
    let mut b = QuatBASIC::new();
    let mut vga = QuatVGA::new();
    let done = run_program(&mut b, &mut vga);
    assert_eq!(
        b.console_output,
        vec![
            "Pokrecem QuatBASIC Hardverski Test...".to_string(),
            "Crtam po QuatVGA VRAM-u...".to_string(),
            "Gotovo! Ready.".to_string(),
            "OK".to_string(),
        ]
    );
    assert_eq!(vga.vram[100 * 320 + 160], 14);
    assert_eq!(done.len(), 8);
    assert!(matches!(&done[3], BasicStatement::Beep(f, 150) if f == "440"));
    assert!(matches!(&done[4], BasicStatement::Beep(f, 200) if f == "880"));
}

#[test]
fn basic_runs_jumps() {
    let mut b = QuatBASIC::new();
    let mut vga = QuatVGA::new();
    b.lines.clear();
    b.lines.insert(10, "PRINT \"A\"".to_string());
    b.lines.insert(20, "GOTO 40".to_string());
    b.lines.insert(30, "PRINT \"B\"".to_string());
    b.lines.insert(40, "PRINT \"C\"".to_string());
    run_program(&mut b, &mut vga);
    assert_eq!(b.console_output, vec!["Running...", "A", "C", "OK"]);
    b.lines.insert(50, "GOTO 99".to_string());
    run_program(&mut b, &mut vga);
    assert_eq!(b.console_output, vec!["Running...", "A", "C", "ERR: Linija 99 ne postoji!", "OK"]);
    b.lines.clear();
    let (nums, pc) = b.start_run();
    assert!(nums.is_empty());
    assert!(pc.is_none());
    assert_eq!(b.console_output, vec!["Running...", "OK"]);
}

#[test]
fn basic_advance_goes_to_first_match() {
    let mut b = QuatBASIC::new();
    let nums = vec![10, 20, 30];
    assert_eq!(b.advance(&nums, 0, None), Some(1));
    assert_eq!(b.advance(&nums, 2, Some(10)), Some(0));
    assert!(b.console_output.is_empty());
    assert_eq!(b.advance(&nums, 2, None), None);
    assert_eq!(b.console_output, vec!["OK"]);
}
