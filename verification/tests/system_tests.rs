use quatos::crt_screen::{draw_char_at, glyph_index, lcg_next, CRT_HEIGHT, CRT_WIDTH};
use quatos::kernel::{QuatByte, QuatKernel};
use quatos::quat_bench::{BenchLevel, QuatBENCH};
use quatos::quat_bios::{BootStage, QuatBIOS};
use quatos::quat_byte::{ByteCategory, QuatByteAudition};
use quatos::quat_dsp::{demo_pattern, lfsr_next, next_step, release_stage, EnvelopeStage, PATTERN_STEPS};
use quatos::quat_tracker::{QuatTracker, TrackerChannel, Waveform};
use quatos::task_manager::{ram_region, ProcessState, RamRegion, TaskManager};

#[test]
fn tracker_starts_with_demo() {
    let t = QuatTracker::new();
    assert_eq!(t.bpm, 128);
    assert!(!t.is_playing);
    assert_eq!(t.channels[0].steps, [1, 0, 3, 0, 5, 0, 8, 0, 1, 0, 3, 0, 5, 0, 10, 0]);
    assert_eq!(t.channels[1].steps, [0; 16]);
    assert_eq!(t.channels[3].waveform, Waveform::Noise);
    let c = TrackerChannel::new(Waveform::Sawtooth);
    assert!(c.enabled);
    assert_eq!(c.steps, [0; 16]);
}

#[test]
fn tracker_note_names() {
    assert_eq!(QuatTracker::note_name(0), "---");
    assert_eq!(QuatTracker::note_name(1), "C-4");
    assert_eq!(QuatTracker::note_name(2), "C#4");
    assert_eq!(QuatTracker::note_name(12), "B-4");
    assert_eq!(QuatTracker::note_name(13), "???");
}

#[test]
fn tracker_playback_and_notes() {
    let mut t = QuatTracker::new();
    t.tick();
    assert_eq!(t.current_step, 0);
    t.play();
    assert_eq!(t.status_message, "Reprodukcija započeta...");
    for _ in 0..17 {
        t.tick();
    }
    assert_eq!(t.current_step, 1);
    t.stop();
    assert_eq!(t.current_step, 0);
    assert!(!t.is_playing);
    assert_eq!(t.status_message, "Sekvencer zaustavljen.");
    t.cycle_note(1, 3);
    assert_eq!(t.channels[1].steps[3], 1);
    assert_eq!(t.status_message, "CH1 Step 3 promenjen na C-4");
    t.channels[0].steps[5] = 12;
    t.cycle_note(0, 5);
    assert_eq!(t.channels[0].steps[5], 0);
    assert_eq!(t.status_message, "CH0 Step 5 promenjen na ---");
}

#[test]
fn tracker_register_export() {
    let t = QuatTracker::new();
    let s = t.export_registers([0x0F, 0x0A, 0x07, 0x00]);
    assert!(s.starts_with("; --- QUATTRACKER DSP REGISTERS EXPORT ---\n; BPM: 128\n; Bitcrush: 8-bit\n\nSOUND_INIT_REGISTERS:\n"));
    assert!(s.contains("  .DB 0x01, 0x0F ; CH0 Waveform & Volume\n"));
    assert!(s.contains("  .DB 0x04, 0x00 ; CH3 Waveform & Volume\n"));
    assert!(s.contains("\nSEQUENCE_DATA (16 Steps):\n  .DB 0x01, 0x11 ; Step 00\n"));
    assert!(s.contains("  .DB 0x0A, 0x00 ; Step 14\n  .DB 0x00, 0x00 ; Step 15\n"));
    assert_eq!(s.lines().count(), 1 + 2 + 1 + 1 + 4 + 1 + 1 + 16);
}

#[test]
fn dsp_pattern_and_helpers() {
    let p = demo_pattern();
    assert_eq!(p.len(), PATTERN_STEPS);
    assert_eq!(p[0][0].note_index, 13);
    assert_eq!(p[0][0].volume, 3);
    assert_eq!(p[8][0].note_index, 16);
    assert_eq!(p[16][0].note_index, 18);
    assert_eq!(p[1][0].note_index, 0);
    assert_eq!(p[4][1].note_index, 1);
    assert_eq!(p[4][1].volume, 2);
    assert_eq!(p[2][1].note_index, 0);
    assert_eq!(p[28][0].note_index, 11);
    assert_eq!(next_step(31), 0);
    assert_eq!(next_step(5), 6);
    assert_eq!(release_stage(EnvelopeStage::Off), EnvelopeStage::Off);
    assert_eq!(release_stage(EnvelopeStage::Sustain), EnvelopeStage::Release);
    assert_eq!(lfsr_next(0xACE1), 0x5670);
    assert_eq!(lfsr_next(1), 0x8000);
    assert_eq!(lfsr_next(0), 0);
}

#[test]
fn bios_boots_in_forty_ticks() {
    let mut bios = QuatBIOS::new();
    let mut k = QuatKernel::new();
    assert_eq!(bios.stage, BootStage::PowerOff);
    assert_eq!(bios.status_text(), "Isključen (Power Off)");
    bios.update(&mut k);
    assert_eq!(bios.stage, BootStage::PowerOff);
    k.pc = 9;
    bios.power_on(&mut k);
    assert_eq!(k.pc, 0);
    assert_eq!(bios.stage, BootStage::PostCpuCheck);
    assert_eq!(bios.log.len(), 2);
    bios.update(&mut k);
    assert_eq!(bios.stage, BootStage::RamDiagnostic);
    assert_eq!(bios.log[3], "[ OK ] Registers REG_A & REG_B initialized");
    for _ in 0..16 {
        bios.update(&mut k);
    }
    assert!(k.ram.iter().all(|b| *b == QuatByte(255)));
    bios.update(&mut k);
    assert_eq!(bios.stage, BootStage::CrtSplashAnimation);
    assert!(k.ram.iter().all(|b| *b == QuatByte(0)));
    for _ in 0..20 {
        bios.update(&mut k);
    }
    assert_eq!(k.ram[4 * 16 + 3], QuatByte(255));
    assert_eq!(k.ram[3 * 16 + 11], QuatByte(255));
    assert_eq!(k.ram.iter().filter(|b| b.0 == 255).count(), 19);
    bios.update(&mut k);
    assert_eq!(bios.stage, BootStage::MountQuatFS);
    bios.update(&mut k);
    assert_eq!(bios.stage, BootStage::BootComplete);
    assert_eq!(bios.status_text(), "Sistem je spreman za rad!");
    bios.power_off(&mut k);
    assert_eq!(bios.stage, BootStage::PowerOff);
    assert_eq!(bios.log, vec!["SYSTEM SHUTDOWN.".to_string()]);
    assert!(k.ram.iter().all(|b| *b == QuatByte(0)));
}

#[test]
fn bench_levels_in_order() {
    let mut b = QuatBENCH::new();
    let mut k = QuatKernel::new();
    b.next_level();
    assert_eq!(b.current_level, BenchLevel::Idle);
    b.start_full_test();
    assert_eq!(b.log_messages.len(), 2);
    assert_eq!(b.current_level, BenchLevel::Level1Warmup);
    b.run_level(&mut k);
    assert_eq!(b.total_operations, 20_000);
    b.next_level();
    assert_eq!(b.current_level, BenchLevel::Level2RamBus);
    assert_eq!(b.log_messages.last().unwrap(), "🔥 NIVO 2/5: RAM Bus Integrity Sweep (256 Bajtova)");
    b.run_level(&mut k);
    assert!(k.ram.iter().all(|q| q.0 == 32));
    assert_eq!(b.total_operations, 20_512);
    b.next_level();
    k.vram[0] = QuatByte(0x81);
    b.run_level(&mut k);
    assert_eq!(k.vram[0], QuatByte(0x3F));
    b.next_level();
    b.run_level(&mut k);
    b.next_level();
    assert_eq!(b.current_level, BenchLevel::Level5MaxTorture);
    b.run_level(&mut k);
    assert!(k.ram.iter().all(|q| q.0 == 0xFF));
    assert!(k.vram[..64].iter().all(|q| q.0 == 0xFF));
    b.next_level();
    assert_eq!(b.current_level, BenchLevel::Finished);
    assert_eq!(b.total_operations, 421_512);
    b.stop();
    assert_eq!(b.current_level, BenchLevel::Idle);
    assert_eq!(b.log_messages.last().unwrap(), "⏹ Test ručno prekinut.");
    b.advance_to_level(BenchLevel::Level3VramBurn);
    assert_eq!(b.level_operations, 0);
}

#[test]
fn task_manager_processes() {
    let mut t = TaskManager::new();
    assert_eq!(t.processes.len(), 4);
    assert_eq!(t.processes[2].name, "assembler_ide");
    t.set_paused(0, true);
    assert_eq!(t.processes[0].state, ProcessState::Paused);
    t.set_paused(1, true);
    assert_eq!(t.processes[1].state, ProcessState::Ready);
    t.set_paused(3, false);
    assert_eq!(t.processes[3].state, ProcessState::Running);
    t.kill(2);
    let pids: Vec<u8> = t.processes.iter().map(|p| p.pid).collect();
    assert_eq!(pids, vec![0, 1, 3]);
    t.kill(9);
    assert_eq!(t.processes.len(), 3);
    let mut k = QuatKernel::new();
    for i in 0..256 {
        k.ram[i] = QuatByte(0);
    }
    k.ram[0] = QuatByte(1);
    k.ram[100] = QuatByte(7);
    k.ram[255] = QuatByte(255);
    assert_eq!(t.update_metrics(&k), 3);
    assert_eq!(t.tick_counter, 1);
}

#[test]
fn task_manager_ram_regions() {
    assert_eq!(ram_region(0x10, 0), RamRegion::Code);
    assert_eq!(ram_region(0x3F, 9), RamRegion::Code);
    assert_eq!(ram_region(0x40, 0), RamRegion::Data);
    assert_eq!(ram_region(0xF0, 0), RamRegion::Stack);
    assert_eq!(ram_region(0xB0, 5), RamRegion::FreeUsed);
    assert_eq!(ram_region(0xB0, 0), RamRegion::FreeEmpty);
}

#[test]
fn crt_glyphs() {
    assert_eq!(glyph_index('0'), 0);
    assert_eq!(glyph_index('9'), 9);
    assert_eq!(glyph_index('A'), 10);
    assert_eq!(glyph_index('F'), 15);
    assert_eq!(glyph_index('z'), 0);
    let mut screen = vec![[0u8; 3]; CRT_WIDTH * CRT_HEIGHT];
    draw_char_at(&mut screen, '1', 10, 20, [1, 2, 3]);
    // top row of "1" is 0x1C: columns 3, 4 and 5 are lit
    assert_eq!(screen[20 * CRT_WIDTH + 13], [1, 2, 3]);
    assert_eq!(screen[20 * CRT_WIDTH + 15], [1, 2, 3]);
    assert_eq!(screen[20 * CRT_WIDTH + 12], [0, 0, 0]);
    assert_eq!(screen.iter().filter(|p| **p != [0, 0, 0]).count(), 3 + 4 + 3 + 3 + 3 + 3 + 6);
    let mut edge = vec![[0u8; 3]; CRT_WIDTH * CRT_HEIGHT];
    draw_char_at(&mut edge, '8', 156, 116, [9, 9, 9]);
    assert_eq!(edge.len(), CRT_WIDTH * CRT_HEIGHT);
    assert!(edge.iter().filter(|p| **p != [0, 0, 0]).count() > 0);
    assert_eq!(lcg_next(0), 1013904223);
    assert_eq!(lcg_next(1), 1015568748);
}

#[test]
fn byte_audition_verdicts() {
    let mut a = QuatByteAudition::new();
    assert_eq!(a.simon_mood, "Skeptičan");
    a.start_audition();
    assert!(a.audition_active);
    a.user_input = "Moj BAS je jak".to_string();
    a.simon_evaluate();
    assert_eq!(a.buzzers, [true, false, false, false]);
    assert_eq!(a.simon_mood, "Besan");
    a.user_input = "tiha melodija".to_string();
    a.simon_evaluate();
    assert_eq!(a.score, 10);
    assert_eq!(a.simon_mood, "Malo Impresioniran");
    a.category = ByteCategory::AssemblySpeedrun;
    a.user_input = "MOV A, 1".to_string();
    a.simon_evaluate();
    assert_eq!(a.score, 35);
    assert_eq!(a.simon_mood, "Skeptičan");
    a.user_input = "   ".to_string();
    a.simon_evaluate();
    assert_eq!(a.buzzers, [true, true, false, false]);
    a.user_input = "ADD".to_string();
    a.simon_evaluate();
    assert_eq!(a.simon_dialogue, "Šta je ovo?! Sintaksna greška! Moji akumulatori krvare od ovog koda!");
    a.category = ByteCategory::TechPitch;
    a.user_input = "Kratko".to_string();
    a.simon_evaluate();
    assert_eq!(a.score, 50);
    a.category = ByteCategory::SpriteArt;
    a.simon_evaluate();
    assert_eq!(a.buzzers, [true, true, true, true]);
    assert_eq!(a.simon_mood, "Zgađen");
    assert!(a.audition_active);
    a.simon_evaluate();
    assert!(!a.audition_active);
    assert_eq!(a.score, 50);
    a.give_up();
    assert_eq!(a.simon_dialogue, "Mudrom odlukom si izbegao potpunu sramotu. Sledeći!");
}

#[test]
fn byte_audition_score_limit() {
    let mut a = QuatByteAudition::new();
    a.category = ByteCategory::AssemblySpeedrun;
    a.user_input = "JMP 0".to_string();
    a.score = 240;
    assert!(!a.simon_evaluate_checked());
    assert_eq!(a.score, 240);
    a.score = 230;
    assert!(a.simon_evaluate_checked());
    assert_eq!(a.score, 255);
}
