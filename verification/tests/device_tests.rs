use quatos::assembler::{emit_line, instr_size, Assembler};
use quatos::symbols::SymbolTable;
use quatos::kernel::{QuatByte, QuatKernel};
use quatos::quat_disk::{DiskBeep, QuatDisk, FLOPPY_SIZE};
use quatos::quat_fs::QuatFS;
use quatos::quat_gpu::QuatGPU;
use quatos::quat_logic::QuatLogic;
use quatos::quat_net::{ModemState, QuatNET};
use quatos::quat_pic::{QuatPIC, QuatPadState};
use quatos::quat_tape::{QuatTAPE, TapeError};
use quatos::quat_vga::QuatVGA;
use quatos::quat_vm::QuatVM;

#[test]
fn pic_raises_and_services_lowest_line() {
    let mut k = QuatKernel::new();
    let mut pic = QuatPIC::new();
    assert_eq!(pic.vector_table, [0x10, 0x14, 0x18, 0x1C]);
    pic.trigger_irq(3, &mut k);
    pic.trigger_irq(1, &mut k);
    pic.trigger_irq(7, &mut k);
    assert_eq!(pic.irq_pending, 0b1010);
    assert_eq!(k.ram[0x72], QuatByte(0b1010));
    pic.process_interrupts(&mut k);
    assert_eq!(pic.last_serviced_irq, Some(1));
    assert_eq!(k.pc, 0x14);
    assert_eq!(pic.irq_pending, 0b1000);
    pic.set_irq_enabled(3, false, &mut k);
    assert_eq!(k.ram[0x71], QuatByte(0b0111));
    pic.process_interrupts(&mut k);
    assert_eq!(k.pc, 0x14);
    pic.clear_pending(&mut k);
    assert_eq!(pic.irq_pending, 0);
    assert_eq!(pic.last_serviced_irq, None);
}

#[test]
fn pic_pad_change_raises_pad_line() {
    let mut k = QuatKernel::new();
    let mut pic = QuatPIC::new();
    let mut pad = QuatPadState::default();
    assert_eq!(pad.to_byte(), 0);
    pad.up = true;
    pad.start = true;
    assert_eq!(pad.to_byte(), 129);
    pic.update_pad(pad, &mut k);
    assert_eq!(k.ram[0x70], QuatByte(129));
    assert_eq!(pic.irq_pending, 2);
    pic.clear_pending(&mut k);
    pic.update_pad(pad, &mut k);
    assert_eq!(pic.irq_pending, 0);
}

#[test]
fn disk_blank_image_and_sectors() {
    let mut d = QuatDisk::new();
    let img = d.image.as_ref().unwrap();
    assert_eq!(img.len(), FLOPPY_SIZE);
    assert_eq!(&img[0..11], b"QUATBOOT1.0");
    assert_eq!(img[510], 0x55);
    assert_eq!(img[511], 0xAA);
    assert_eq!(d.label, "QUAT_DOS_BOOT");
    let beep = d.write_sector(40, &[1, 2, 3]);
    assert_eq!(beep, Some(DiskBeep { track: 1, duration_ms: 15 }));
    assert_eq!(d.current_track, 1);
    let (sector, beep) = d.read_sector(40);
    assert_eq!(beep, None);
    let sector = sector.unwrap();
    assert_eq!(sector.len(), 512);
    assert_eq!(&sector[0..4], &[1, 2, 3, 0]);
    assert!(d.activity_led);
    assert_eq!(d.led_timer, 15);
    for _ in 0..15 {
        d.tick();
    }
    assert!(!d.activity_led);
    assert_eq!(d.seek_track(200), Some(DiskBeep { track: 79, duration_ms: 15 * 78 }));
    d.current_head = 1;
    d.motor_on = true;
    d.write_protected = true;
    d.active_sector = 77;
    d.eject();
    assert!(d.image.is_none());
    assert!(d.label.is_empty());
    assert_eq!(d.status_msg, "Disketa izbačena.");
    assert_eq!((d.current_track, d.current_head, d.active_sector), (79, 1, 77));
    assert!(d.motor_on && d.write_protected);
    d.write_protected = false;
    assert_eq!(d.write_sector(0, &[9]), None);
}

#[test]
fn net_dials_connects_and_echoes() {
    let mut k = QuatKernel::new();
    let mut pic = QuatPIC::new();
    let mut net = QuatNET::new();
    k.ram[0x82] = QuatByte(1);
    net.tick(&mut k, &mut pic, true);
    assert_eq!(net.state, ModemState::Dialing(1));
    assert_eq!(k.ram[0x82], QuatByte(0));
    for _ in 0..50 {
        net.tick(&mut k, &mut pic, true);
    }
    assert_eq!(net.state, ModemState::Connected);
    assert_eq!(net.terminal_log.last().unwrap(), "CONNECT 9600 BAUD / QuatNET Server Online.");
    net.send_string("A");
    for _ in 0..10 {
        net.tick(&mut k, &mut pic, true);
    }
    assert_eq!(net.total_bytes_sent, 1);
    assert_eq!(net.total_bytes_received, 1);
    assert_eq!(net.rx_buffer.iter().cloned().collect::<Vec<u8>>(), vec![b'A']);
    assert_eq!(pic.irq_pending & 8, 8);
    // the received byte sat in the data register and was taken for sending
    assert_eq!(net.tx_buffer.iter().cloned().collect::<Vec<u8>>(), vec![b'A']);
    assert_eq!(k.ram[0x80], QuatByte(0));
    assert_eq!(k.ram[0x81], QuatByte(0b111));
}

#[test]
fn net_noisy_line_loses_byte() {
    let mut k = QuatKernel::new();
    let mut pic = QuatPIC::new();
    let mut net = QuatNET::new();
    net.state = ModemState::Connected;
    net.baud_rate_ticks = 1;
    net.send_string("Z");
    net.tick(&mut k, &mut pic, false);
    assert_eq!(net.total_bytes_sent, 1);
    assert_eq!(net.total_bytes_received, 0);
    assert_eq!(net.terminal_log.last().unwrap(), "⚠️ PARITY ERROR: Byte 0x5A lost!");
    assert_eq!(k.ram[0x81], QuatByte(0b110));
}

#[test]
fn net_buffers_hold_64_bytes() {
    let mut net = QuatNET::new();
    let text = "x".repeat(100);
    net.send_string(&text);
    assert_eq!(net.tx_buffer.len(), 64);
    net.execute_command(3);
    assert_eq!(net.tx_buffer.len(), 0);
    assert_eq!(net.terminal_log.last().unwrap(), "Buffers flushed.");
    net.input_text = "hi".to_string();
    net.send_input();
    assert_eq!(net.tx_buffer.iter().cloned().collect::<Vec<u8>>(), b"hi\r\n".to_vec());
    assert_eq!(net.terminal_log.last().unwrap(), "> hi");
    assert!(net.input_text.is_empty());
}

#[test]
fn vga_palette_and_drawing() {
    let mut v = QuatVGA::new();
    assert_eq!(v.vram.len(), 64000);
    assert_eq!(v.palette[1], (0, 0, 170));
    assert_eq!(v.palette[16], (0, 0, 0));
    assert_eq!(v.palette[17], (0, 0, 95));
    assert_eq!(v.palette[16 + 36 + 6 + 1], (95, 95, 95));
    assert_eq!(v.palette[231], (255, 255, 255));
    assert_eq!(v.palette[232], (15, 15, 15));
    assert_eq!(v.palette[255], (245, 245, 245));
    v.put_pixel(319, 199, 7);
    assert_eq!(v.vram[63999], 7);
    v.put_pixel(320, 0, 7);
    assert_eq!(v.vram[320], 0);
    v.draw_rect(318, 198, 10, 10, 3);
    assert_eq!(v.vram[198 * 320 + 318], 3);
    assert_eq!(v.vram[199 * 320 + 319], 3);
    assert_eq!(v.vram[197 * 320 + 318], 0);
    v.clear(9);
    assert!(v.vram.iter().all(|&b| b == 9));
}

#[test]
fn vga_demos() {
    let mut k = QuatKernel::new();
    let mut v = QuatVGA::new();
    v.demo_mode = 3;
    v.tick(&mut k);
    assert_eq!(v.frame_counter, 1);
    // star 0 sits at (1, 0), bright white
    assert_eq!(v.vram[1], 15);
    assert_eq!(v.vram.iter().filter(|&&b| b != 0).count() <= 150, true);
    v.demo_mode = 2;
    v.clear(0);
    v.tick(&mut k);
    assert_eq!(v.frame_counter, 2);
    // frame 2: even products give fresh fuel 255 everywhere on the bottom row
    assert!(v.vram[199 * 320..].iter().all(|&b| b == 255));
    v.demo_mode = 0;
    let before = v.vram.clone();
    v.tick(&mut k);
    assert_eq!(v.vram, before);
}

fn reference_render(ram: &mut [QuatByte; 256], sprites: &[(u8, u8, u8)]) {
    for tile_y in 0..4 {
        for tile_x in 0..4 {
            let tile_id = ram[0x90 + tile_y * 4 + tile_x].0 % 16;
            for py in 0..4 {
                for px in 0..4 {
                    let frame_addr = (tile_y * 4 + py) * 16 + tile_x * 4 + px;
                    let row_byte = ram[0xA0 + tile_id as usize * 4 + py].0;
                    let color_idx = (row_byte >> ((3 - px) * 2)) & 0x03;
                    ram[frame_addr] = QuatByte(color_idx * 85);
                }
            }
        }
    }
    for &(sx, sy, tile) in sprites {
        let tile_id = tile as usize % 16;
        for py in 0..4 {
            for px in 0..4 {
                let (tx, ty) = (sx as usize + px, sy as usize + py);
                if tx < 16 && ty < 16 {
                    let row_byte = ram[0xA0 + tile_id * 4 + py].0;
                    let color_idx = (row_byte >> ((3 - px) * 2)) & 0x03;
                    if color_idx > 0 {
                        ram[ty * 16 + tx] = QuatByte(color_idx * 85);
                    }
                }
            }
        }
    }
}

#[test]
fn gpu_renders_tiles_and_sprites() {
    let gpu = QuatGPU::new();
    let sprites: Vec<(u8, u8, u8)> = gpu.sprites.iter().map(|s| (s.x, s.y, s.tile_id)).collect();
    assert_eq!(sprites, vec![(2, 2, 1), (10, 4, 2), (6, 11, 3), (12, 12, 0)]);
    let mut seed: u32 = 7;
    for round in 0..6 {
        let mut k = QuatKernel::new();
        for i in 0..256 {
            seed = seed.wrapping_mul(1664525).wrapping_add(1013904223);
            k.ram[i] = QuatByte(if round == 0 { 0 } else { (seed >> 24) as u8 });
        }
        if round == 1 {
            for r in 0..4 {
                k.ram[0xA0 + r] = QuatByte(0xFF);
            }
        }
        let mut expected = k.ram;
        reference_render(&mut expected, &sprites);
        gpu.render_frame(&mut k);
        assert_eq!(k.ram, expected);
    }
    let mut k = QuatKernel::new();
    for b in k.ram.iter_mut() {
        *b = QuatByte(0);
    }
    gpu.render_frame(&mut k);
    assert!(k.ram.iter().all(|b| b.0 == 0));
}

#[test]
fn gpu_pattern_editor_cycles_colour() {
    let mut k = QuatKernel::new();
    let gpu = QuatGPU::new();
    gpu.cycle_pattern_pixel(&mut k, 0, 0);
    assert_eq!(k.ram[0xA0], QuatByte(0b0100_0000));
    gpu.cycle_pattern_pixel(&mut k, 3, 0);
    assert_eq!(k.ram[0xA0], QuatByte(0b0100_0001));
    for _ in 0..3 {
        gpu.cycle_pattern_pixel(&mut k, 0, 0);
    }
    assert_eq!(k.ram[0xA0], QuatByte(0b0000_0001));
    // tiles past 15 still address pattern RAM, up to tile 23
    let mut gpu = gpu;
    gpu.selected_tile = 23;
    gpu.cycle_pattern_pixel(&mut k, 1, 3);
    assert_eq!(k.ram[0xA0 + 23 * 4 + 3], QuatByte(0b0001_0000));
}

#[test]
fn tape_save_and_load_round_trip() {
    let mut k = QuatKernel::new();
    k.ram[7] = QuatByte(77);
    k.vram[3] = QuatByte(33);
    k.vram[100] = QuatByte(1);
    let image = QuatTAPE::tape_image(&k);
    assert_eq!(image.len(), 324);
    assert_eq!(&image[0..4], b"QUAT");
    let mut tape = QuatTAPE::new();
    tape.save_to_tape(Ok(()));
    assert_eq!(tape.tape_status, "✅ Uspešno snimljeno na traku: 'my_program.quat' (324 bajtova)");
    assert!(tape.is_spinning);
    let mut other = QuatKernel::new();
    other.vram[100] = QuatByte(5);
    tape.load_from_tape(&mut other, Ok(image));
    assert_eq!(other.ram, k.ram);
    assert_eq!(other.vram[3], QuatByte(33));
    assert_eq!(other.vram[100], QuatByte(5));
    assert_eq!(tape.tape_status, "✅ Uspešno učitano sa trake: 'my_program.quat'");
}

#[test]
fn tape_reports_errors() {
    let mut k = QuatKernel::new();
    let mut tape = QuatTAPE::new();
    tape.load_from_tape(&mut k, Ok(b"NOPE".to_vec()));
    assert_eq!(tape.tape_status, "❌ Neispravan format Quat trake ili oštećen fajl!");
    tape.load_from_tape(&mut k, Err(TapeError::Open));
    assert_eq!(tape.tape_status, "❌ Fajl 'my_program.quat' nije pronađen!");
    tape.save_to_tape(Err(TapeError::Io));
    assert_eq!(tape.tape_status, "❌ Greška pri pisanju na disk!");
    tape.save_to_tape(Err(TapeError::Open));
    assert_eq!(tape.tape_status, "❌ Ne mogu da kreiram fajl!");
    assert!(!tape.is_spinning);
    tape.is_spinning = true;
    tape.reel_tick();
    tape.reel_tick();
    assert_eq!(tape.spin_frame, 2);
}

#[test]
fn fs_creates_formats_and_deletes() {
    let mut k = QuatKernel::new();
    let mut fs = QuatFS::new();
    assert_eq!(fs.files.len(), 3);
    fs.new_filename = "  note.txt ".to_string();
    fs.new_file_data = "ABC".to_string();
    fs.create_file(&mut k);
    assert_eq!(fs.files.len(), 4);
    assert_eq!(fs.files[3].name, "note.txt");
    // the factory files end by 0x58, so the new file starts at 0x60
    assert_eq!(fs.files[3].start_block, 0x60);
    assert_eq!(fs.files[3].size, 3);
    assert_eq!(k.ram[0x60], QuatByte(b'A'));
    assert_eq!(k.ram[0x62], QuatByte(b'C'));
    assert_eq!(k.ram[0x58], QuatByte(0));
    assert_eq!(fs.status_msg, "Fajl zapisan od bloka 0x60 (Veličina: 3 QB)");
    fs.new_filename = "next.txt".to_string();
    fs.new_file_data = "hi".to_string();
    fs.create_file(&mut k);
    // after the furthest file: 0x60 + 3
    assert_eq!(fs.files[4].start_block, 0x63);
    assert_eq!(k.ram[0x63], QuatByte(b'h'));
    assert_eq!(k.ram[0x64], QuatByte(b'i'));
    assert!(fs.new_filename.is_empty());
    fs.new_filename = "   ".to_string();
    fs.create_file(&mut k);
    assert_eq!(fs.status_msg, "Greška: Ime fajla ne može biti prazno!");
    fs.delete_file(0);
    assert_eq!(fs.files.len(), 4);
    assert_eq!(fs.files[0].name, "logo.art");
    fs.format_disk(&mut k);
    assert!(fs.files.is_empty());
    assert_eq!(k.ram[0x60], QuatByte(0));
    assert_eq!(k.ram[0], QuatByte(10));
}

#[test]
fn logic_analyzer_traps_on_breakpoint() {
    let mut k = QuatKernel::new();
    let mut la = QuatLogic::new();
    la.sample_bus(&k, true);
    assert_eq!(la.history.len(), 1);
    assert_eq!(la.history[0].data_bus, 10);
    assert!(!la.history[0].clk);
    la.break_data = " 5 ".to_string();
    k.pc = 1;
    la.sample_bus(&k, false);
    assert!(la.breakpoint_hit);
    assert!(!la.is_sampling);
    assert_eq!(la.status_msg, "🎯 BREAKPOINT TRAP! Data Bus ima vrednost 5 (0x05)");
    la.sample_bus(&k, false);
    assert_eq!(la.history.len(), 2);
    la.reset_trace();
    assert!(la.history.is_empty());
    assert!(la.is_sampling);
    for _ in 0..30 {
        la.break_data.clear();
        la.sample_bus(&k, true);
    }
    assert_eq!(la.history.len(), 24);
    assert_eq!(la.history[23].cycle, 30);
}

#[test]
fn assembler_and_vm_run_sample() {
    let mut k = QuatKernel::new();
    let mut vm = QuatVM::new();
    vm.compile_and_load(&mut k);
    assert!(vm.compile_err.is_none());
    // SET A, v and SET B, v are the load opcodes 1 and 2 with the value
    let code: Vec<u8> = k.ram[..6].iter().map(|b| b.0).collect();
    assert_eq!(code, vec![1, 12, 2, 30, 3, 0]);
    assert_eq!(k.logs.last().unwrap(), "Kompajlirano 5 QuatBajtova u RAM!");
    QuatVM::execute_step(&mut k);
    assert_eq!((k.reg_a, k.pc), (QuatByte(12), 2));
    QuatVM::execute_step(&mut k);
    assert_eq!((k.reg_b, k.pc), (QuatByte(30), 4));
    QuatVM::execute_step(&mut k);
    // the sample's promise: 42, quats 0222
    assert_eq!((k.reg_a, k.pc), (QuatByte(42), 5));
    assert_eq!(k.reg_a.to_quats(), [0, 2, 2, 2]);
    QuatVM::execute_step(&mut k);
    QuatVM::execute_step(&mut k);
    assert_eq!((k.reg_a, k.reg_b, k.pc), (QuatByte(42), QuatByte(30), 7));
}

#[test]
fn assembler_buttons() {
    let mut k = QuatKernel::new();
    let mut tool = Assembler::new();
    tool.source_code = "SET A, 7\nNOP".to_string();
    tool.auto_load_to_ram = true;
    tool.compile_source(&mut k);
    assert_eq!(tool.compiled_bytecode, vec![QuatByte(1), QuatByte(7), QuatByte(0)]);
    assert_eq!(tool.status_message, "Uspeshno! Generisano 3 QuatByte-ova. Učitano direktno u RAM!");
    assert_eq!(k.ram[1], QuatByte(7));
    tool.source_code = "FOO".to_string();
    tool.compile_source(&mut k);
    assert!(tool.status_message.starts_with("Kompilacija neuspešna: "));
    tool.load_to_ram(&mut k);
    assert_eq!(tool.status_message, "Učitano 3 bajtova na adresu 0x00 u RAM-u.");
    let (a, b, pc, running, logs) = (k.reg_a, k.reg_b, k.pc, k.is_running, k.logs.clone());
    tool.load_to_ram(&mut k);
    assert_eq!((k.reg_a, k.reg_b, k.pc, k.is_running), (a, b, pc, running));
    assert_eq!(k.logs, logs);
    tool.clear_all();
    assert!(tool.compiled_bytecode.is_empty());
    tool.load_to_ram(&mut k);
    assert_eq!(tool.status_message, "Nema kompajliranog bajtkoda za učitavanje!");
}

#[test]
fn disk_reads_back_what_was_written() {
    let mut d = QuatDisk::new();
    d.insert_blank_disk("DATA");
    let first: Vec<u8> = (0..512).map(|i| (i % 251) as u8).collect();
    let second: Vec<u8> = vec![0xAB; 512];
    d.write_sector(40, &first);
    d.write_sector(41, &second);
    let (got, _) = d.read_sector(40);
    assert_eq!(got.unwrap(), &first[..]);
    let (got, _) = d.read_sector(41);
    assert_eq!(got.unwrap(), &second[..]);
    let (got, _) = d.read_sector(39);
    assert!(got.unwrap().iter().all(|&b| b == 0));
}

#[test]
fn fs_checked_create_refuses_bad_tables() {
    let mut k = QuatKernel::new();
    let mut fs = QuatFS::new();
    fs.new_filename = "big.bin".to_string();
    fs.new_file_data = "x".repeat(260);
    let before = k.ram;
    // more than 32 bytes is refused with the size error
    assert!(fs.create_file_checked(&mut k));
    assert_eq!(fs.status_msg, "Greška: Fajl ne može biti veći od 32 QuatBajta!");
    assert_eq!(fs.files.len(), 3);
    assert_eq!(k.ram, before);
    fs.new_file_data = "ok".to_string();
    assert!(fs.create_file_checked(&mut k));
    assert_eq!(fs.files.len(), 4);
    assert_eq!(fs.files[3].start_block, 0x60);
    fs.files[0].start_block = 0xF0;
    fs.files[0].size = 0x20;
    fs.new_filename = "n".to_string();
    fs.new_file_data = "a".to_string();
    assert!(!fs.create_file_checked(&mut k));
    fs.new_filename = " ".to_string();
    assert!(fs.create_file_checked(&mut k));
    assert_eq!(fs.status_msg, "Greška: Ime fajla ne može biti prazno!");
}

#[test]
fn assembler_labels_are_byte_addresses() {
    let mut tool = Assembler::new();
    let r = tool.compile("SET A, 1\nL:\nJMP L");
    assert_eq!(r, Ok(vec![QuatByte(1), QuatByte(1), QuatByte(5), QuatByte(2)]));
    let l: Vec<char> = "L".chars().collect();
    assert_eq!(tool.label_table.get(&l), Some(2));
    // BEEP takes three bytes, DRAW with five arguments six
    let r = tool.compile("BEEP 1, 2\nDRAW 1, 2, 3, 4, 5\nDRAW A, B\nT:\nJMP T");
    assert_eq!(
        r,
        Ok(vec![9, 1, 2, 7, 1, 2, 3, 4, 5, 8, 5, 10].into_iter().map(QuatByte).collect::<Vec<_>>())
    );
    let t: Vec<char> = "T".chars().collect();
    assert_eq!(tool.label_table.get(&t), Some(10));
    // the demo program assembles
    assert!(tool.source_code.starts_with("// === QuatOS Demo Asemblerski Program ==="));
}

#[test]
fn assembler_sizes_and_single_lines() {
    let w = |s: &str| -> Vec<char> { s.chars().collect() };
    assert_eq!(instr_size(&w("SET"), 2), 2);
    assert_eq!(instr_size(&w("BEEP"), 0), 3);
    assert_eq!(instr_size(&w("DRAW"), 5), 6);
    assert_eq!(instr_size(&w("DRAW"), 4), 1);
    assert_eq!(instr_size(&w("HALT"), 0), 1);
    let defines = SymbolTable::new();
    let labels = SymbolTable::new();
    let mut bytes = Vec::new();
    let mut errors = Vec::new();
    emit_line(&w("SET"), &vec![w("b"), w("200")], 3, &defines, &labels, &mut bytes, &mut errors);
    assert_eq!(bytes, vec![QuatByte(2), QuatByte(200)]);
    assert!(errors.is_empty());
    emit_line(&w("SET"), &vec![w("C"), w("x")], 4, &defines, &labels, &mut bytes, &mut errors);
    assert_eq!(
        errors,
        vec![
            "Linija 4: Nepoznat registar 'C'".to_string(),
            "Linija 4: Nepoznat simbol, labela ili vrednost 'x'".to_string(),
        ]
    );
    emit_line(&w("FOO"), &vec![], 5, &defines, &labels, &mut bytes, &mut errors);
    assert_eq!(errors[2], "Linija 5: Nepoznata komanda 'FOO'");
    emit_line(&w("HALT"), &vec![], 6, &defines, &labels, &mut bytes, &mut errors);
    assert_eq!(bytes.last(), Some(&QuatByte(15)));
}

#[test]
fn fs_refuses_large_data() {
    let mut k = QuatKernel::new();
    let mut fs = QuatFS::new();
    fs.new_filename = "big.bin".to_string();
    fs.new_file_data = "y".repeat(270);
    let before = k.ram;
    fs.create_file(&mut k);
    assert_eq!(fs.status_msg, "Greška: Fajl ne može biti veći od 32 QuatBajta!");
    assert_eq!(fs.files.len(), 3);
    assert_eq!(k.ram, before);
    fs.new_file_data = "z".repeat(33);
    fs.create_file(&mut k);
    assert_eq!(fs.status_msg, "Greška: Fajl ne može biti veći od 32 QuatBajta!");
    fs.new_file_data = "z".repeat(32);
    fs.create_file(&mut k);
    assert_eq!(fs.files[3].size, 32);
    assert_eq!(fs.files[3].start_block, 0x60);
}

#[test]
fn disk_partial_write_reads_back() {
    let mut d = QuatDisk::new();
    d.write_sector(5, &[0xEE; 512]);
    d.write_sector(7, &[0xDD; 512]);
    d.write_sector(6, &[7, 8, 9]);
    let (got, _) = d.read_sector(6);
    let got = got.unwrap();
    assert_eq!(&got[..3], &[7, 8, 9]);
    assert!(got[3..].iter().all(|&b| b == 0));
    assert!(d.read_sector(5).0.unwrap().iter().all(|&b| b == 0xEE));
    assert!(d.read_sector(7).0.unwrap().iter().all(|&b| b == 0xDD));
    assert_eq!(d.current_track, (7 / 36) as u8);
    d.write_sector(40, &[1]);
    assert_eq!(d.current_track, 1);
}
