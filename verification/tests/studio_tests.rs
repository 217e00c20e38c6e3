use quatos::games::{ActiveGame, GamesManager};
use quatos::kernel::{QuatByte, QuatKernel};
use quatos::quat_alu::{AluOp, QuatALU};
use quatos::quat_sprite::{quat_to_rgb, QuatSpriteStudio, SpriteTool};

fn blank_sprite(s: &QuatSpriteStudio) -> bool {
    s.sprite_bank[s.active_sprite_idx].iter().all(|row| row.iter().all(|&c| c == 0))
}

#[test]
fn sprite_studio_starts_blank() {
    let s = QuatSpriteStudio::new();
    assert!(blank_sprite(&s));
    assert_eq!(s.current_tool, SpriteTool::Pencil);
    assert_eq!(s.selected_quat_color, 3);
    assert!(s.tilemap.iter().all(|row| row.iter().all(|&t| t == 0)));
    assert_eq!(s.status_message, "QuatSprite Studio spreman za crtanje.");
}

#[test]
fn sprite_pencil_eraser_and_picker() {
    let mut s = QuatSpriteStudio::new();
    s.apply_tool(2, 1);
    assert_eq!(s.sprite_bank[0][1][2], 3);
    s.selected_quat_color = 1;
    s.apply_tool(4, 4);
    assert_eq!(s.sprite_bank[0][4][4], 1);
    s.current_tool = SpriteTool::Picker;
    s.apply_tool(2, 1);
    assert_eq!(s.selected_quat_color, 3);
    s.current_tool = SpriteTool::Eraser;
    s.apply_tool(2, 1);
    assert_eq!(s.sprite_bank[0][1][2], 0);
    assert_eq!(s.sprite_bank[0][4][4], 1);
    assert_eq!(s.selected_quat_color, 3);
}

#[test]
fn sprite_flips_move_a_pixel() {
    let mut s = QuatSpriteStudio::new();
    s.apply_tool(2, 1);
    s.flip_horizontal();
    assert_eq!(s.sprite_bank[0][1][5], 3);
    assert_eq!(s.sprite_bank[0][1][2], 0);
    assert_eq!(s.status_message, "Sprajt obrnut horizontalno.");
    s.flip_vertical();
    assert_eq!(s.sprite_bank[0][6][5], 3);
    assert_eq!(s.status_message, "Sprajt obrnut vertikalno.");
}

#[test]
fn sprite_rotation_moves_a_pixel() {
    let mut s = QuatSpriteStudio::new();
    s.apply_tool(2, 1);
    s.rotate_90();
    assert_eq!(s.sprite_bank[0][2][6], 3);
    assert_eq!(s.sprite_bank[0].iter().flatten().filter(|&&c| c != 0).count(), 1);
    assert_eq!(s.status_message, "Sprajt rotiran za 90°.");
}

#[test]
fn sprite_transformations_undo_themselves() {
    let mut s = QuatSpriteStudio::new();
    s.apply_tool(1, 0);
    s.selected_quat_color = 2;
    s.apply_tool(6, 3);
    s.selected_quat_color = 1;
    s.apply_tool(3, 7);
    let sprite_before = s.sprite_bank[0];
    s.flip_horizontal();
    assert_ne!(s.sprite_bank[0], sprite_before);
    s.flip_horizontal();
    assert_eq!(s.sprite_bank[0], sprite_before);
    s.flip_vertical();
    s.flip_vertical();
    assert_eq!(s.sprite_bank[0], sprite_before);
    s.invert_quats();
    assert_eq!(s.sprite_bank[0][0][1], 0);
    assert_eq!(s.sprite_bank[0][0][0], 3);
    s.invert_quats();
    assert_eq!(s.sprite_bank[0], sprite_before);
    s.rotate_90();
    s.rotate_90();
    let mut both = sprite_before;
    for y in 0..8 {
        for x in 0..8 {
            both[y][x] = sprite_before[7 - y][7 - x];
        }
    }
    assert_eq!(s.sprite_bank[0], both);
    s.rotate_90();
    s.rotate_90();
    assert_eq!(s.sprite_bank[0], sprite_before);
}

#[test]
fn sprite_bucket_fill_stops_at_walls() {
    let mut s = QuatSpriteStudio::new();
    for y in 0..8 {
        s.apply_tool(3, y);
    }
    s.current_tool = SpriteTool::BucketFill;
    s.selected_quat_color = 1;
    s.apply_tool(0, 0);
    for y in 0..8 {
        for x in 0..8 {
            let expected = if x < 3 { 1 } else if x == 3 { 3 } else { 0 };
            assert_eq!(s.sprite_bank[0][y][x], expected);
        }
    }
    assert_eq!(s.status_message, "Površina popunjena bojom.");
}

#[test]
fn sprite_bucket_fill_same_colour_does_nothing() {
    let mut s = QuatSpriteStudio::new();
    s.bucket_fill(4, 4, 0);
    assert!(blank_sprite(&s));
    s.bucket_fill(4, 4, 2);
    assert!(s.sprite_bank[0].iter().all(|row| row.iter().all(|&c| c == 2)));
}

#[test]
fn sprite_tiles_and_colours() {
    let mut s = QuatSpriteStudio::new();
    s.selected_tile_to_place = 2;
    s.place_tile(4, 5);
    assert_eq!(s.tilemap[5][4], 2);
    assert_eq!(s.tilemap.iter().flatten().filter(|&&t| t != 0).count(), 1);
    assert_eq!(quat_to_rgb(0), (15, 15, 20));
    assert_eq!(quat_to_rgb(2), (0, 200, 150));
    assert_eq!(quat_to_rgb(9), (0, 0, 0));
}

#[test]
fn sprite_export_packs_rows() {
    let mut s = QuatSpriteStudio::new();
    let blank = s.export_asm();
    let mut expected = String::from("; --- QUATSPRITE #0 EXPORT (8x8) ---\nSPRITE_DATA:\n");
    for _ in 0..8 {
        expected.push_str("  .DB 0x00, 0x00\n");
    }
    assert_eq!(blank, expected);
    s.sprite_bank[0][0] = [1, 2, 3, 0, 0, 0, 0, 3];
    s.active_sprite_idx = 0;
    let code = s.export_asm();
    assert!(code.contains("SPRITE_DATA:\n  .DB 0x39, 0xC0\n  .DB 0x00, 0x00\n"));
    s.active_sprite_idx = 2;
    assert!(s.export_asm().starts_with("; --- QUATSPRITE #2 EXPORT (8x8) ---\n"));
}

#[test]
fn alu_starts_with_add() {
    let alu = QuatALU::new();
    assert_eq!(alu.reg_a, 156);
    assert_eq!(alu.reg_b, 73);
    assert_eq!(alu.selected_op, AluOp::Add);
    assert_eq!(alu.alu_result(), (229, false));
    assert_eq!(alu.status_msg, "QuatALU & Base Converter spreman za rad.");
    assert_eq!(AluOp::Add.name(), "ADD (+)");
    assert_eq!(AluOp::Nand.name(), "NAND (~&)");
}

#[test]
fn alu_operations_and_flags() {
    let mut alu = QuatALU::new();
    let cases = [
        (AluOp::Sub, 156, 73, 83, false),
        (AluOp::Sub, 10, 20, 246, true),
        (AluOp::Add, 200, 100, 44, true),
        (AluOp::And, 156, 73, 8, false),
        (AluOp::Or, 156, 73, 221, false),
        (AluOp::Xor, 156, 73, 213, false),
        (AluOp::Nand, 156, 73, 247, false),
        (AluOp::Shl, 156, 0, 56, true),
        (AluOp::Shl, 3, 0, 6, false),
        (AluOp::Shr, 73, 0, 36, true),
        (AluOp::Shr, 156, 0, 78, false),
    ];
    for (op, a, b, r, f) in cases {
        alu.selected_op = op;
        alu.reg_a = a;
        alu.reg_b = b;
        assert_eq!(alu.alu_result(), (r, f));
    }
}

#[test]
fn alu_quat_strings() {
    assert_eq!(QuatALU::to_quat_string(42), "0222");
    assert_eq!(QuatALU::to_quat_string(255), "3333");
    assert_eq!(QuatALU::to_quat_string(0), "0000");
    assert_eq!(QuatALU::parse_quat_string("0222"), Ok(42));
    assert_eq!(QuatALU::parse_quat_string("3"), Ok(3));
    assert_eq!(QuatALU::parse_quat_string(""), Ok(0));
    assert_eq!(QuatALU::parse_quat_string("12301"), Err("Maksimum 4 kvata!"));
    assert_eq!(QuatALU::parse_quat_string("0124"), Err("Nevažeći kvat! Dozvoljene cifre: 0, 1, 2, 3"));
}

#[test]
fn alu_quat_strings_read_back() {
    for v in 0..=255u8 {
        let s = QuatALU::to_quat_string(v);
        assert_eq!(QuatALU::parse_quat_string(&s), Ok(v));
    }
}

#[test]
fn alu_converter_fields() {
    let mut alu = QuatALU::new();
    alu.sync_from_dec(255);
    assert_eq!(alu.input_dec, "255");
    assert_eq!(alu.input_hex, "FF");
    assert_eq!(alu.input_bin, "11111111");
    assert_eq!(alu.input_base4, "3333");
    alu.input_dec = "17".to_string();
    alu.dec_edited();
    assert_eq!(alu.input_hex, "11");
    assert_eq!(alu.input_bin, "00010001");
    assert_eq!(alu.input_base4, "0101");
    assert_eq!(alu.status_msg, "Decimalni unos ažuriran.");
    alu.input_dec = "300".to_string();
    alu.dec_edited();
    assert_eq!(alu.status_msg, "Unesite validan 8-bitni broj (0 - 255).");
    assert_eq!(alu.input_hex, "11");
    alu.input_hex = "1A".to_string();
    alu.hex_edited();
    assert_eq!(alu.input_dec, "26");
    assert_eq!(alu.status_msg, "Heksadecimalni unos ažuriran.");
    alu.input_bin = "101".to_string();
    alu.bin_edited();
    assert_eq!(alu.input_dec, "5");
    assert_eq!(alu.input_bin, "00000101");
    assert_eq!(alu.status_msg, "Binarni unos ažuriran.");
    alu.input_base4 = "3333".to_string();
    alu.base4_edited();
    assert_eq!(alu.input_dec, "255");
    assert_eq!(alu.status_msg, "Konvertovan Kvatni unos u decimalni: 255");
    alu.input_base4 = "39".to_string();
    alu.base4_edited();
    assert_eq!(alu.status_msg, "Greška: Nevažeći kvat! Dozvoljene cifre: 0, 1, 2, 3");
    assert_eq!(alu.input_dec, "255");
}

#[test]
fn games_start() {
    let g = GamesManager::new();
    assert_eq!(g.active_game, ActiveGame::Idle);
    assert_eq!(g.grid[0][0], 'P');
    assert_eq!(g.grid[7][7], 'E');
    assert_eq!(g.grid[2][3], 'X');
    assert_eq!(g.grid[4][1], 'X');
    assert_eq!(g.grid[5][5], 'B');
    assert_eq!(g.grid[1][6], 'B');
    assert_eq!(g.grid.iter().flatten().filter(|&&c| c == '.').count(), 58);
    assert_eq!(g.market_prices, [10, 25, 40, 15]);
    assert_eq!(g.combat_log, vec!["Dobrodošao u QuatCombat Arenu! Choose your action.".to_string()]);
}

#[test]
fn games_combat_turns() {
    let mut g = GamesManager::new();
    g.fire_laser();
    assert_eq!((g.enemy_hp, g.player_heat, g.player_hp), (80, 15, 88));
    assert_eq!(g.combat_log[1], "Pogodio si protivnika Plazma Laserom! (-20 HP)");
    assert_eq!(g.combat_log[2], "🤖 Neprijateljski Mech te je pogodio Kvat-Topom! (-12 HP)");
    g.fire_emp();
    assert_eq!((g.enemy_hp, g.player_heat, g.player_hp), (40, 65, 76));
    assert_eq!(g.combat_log[3], "ISPALJEN EMP! Težak udarac na AI jezgro!");
    g.fire_emp();
    assert_eq!((g.enemy_hp, g.player_heat, g.player_hp), (40, 65, 76));
    assert_eq!(g.combat_log.last().unwrap(), "⚠️ Rizik od spaljivanja registara! Akcija odbijena.");
    g.cool_down();
    assert_eq!((g.player_heat, g.player_hp), (35, 74));
    assert_eq!(g.combat_log[6], "Sistemi rashlađeni, rekonfigurisani štitovi.");
    g.player_heat = 90;
    let n = g.combat_log.len();
    g.fire_laser();
    assert_eq!(g.combat_log.len(), n + 1);
    assert_eq!(g.combat_log[n], "⚠️ PREGREVANJE! Moraš ohladiti sisteme!");
    g.player_heat = 0;
    g.enemy_hp = 20;
    g.fire_laser();
    assert_eq!(g.enemy_hp, 0);
    assert_eq!(g.combat_log.last().unwrap(), "🏆 POBEDA! AI Prototip je uništen!");
    g.player_heat = 10;
    g.player_hp = 95;
    g.cool_down();
    assert_eq!((g.player_heat, g.player_hp), (0, 100));
}

#[test]
fn games_runner_moves() {
    let mut g = GamesManager::new();
    g.move_runner(-1, 0);
    assert_eq!(g.runner_pos, (0, 0));
    g.move_runner(1, 0);
    assert_eq!(g.runner_pos, (1, 0));
    assert_eq!(g.grid[0][0], '.');
    assert_eq!(g.grid[0][1], 'P');
    assert_eq!(g.dungeon_log, "Kretanje po registru...");
    g.move_runner(2, 2);
    assert_eq!(g.runner_pos, (3, 2));
    assert_eq!(g.runner_hp, 35);
    assert_eq!(g.dungeon_log, "⚠️ KORUMPIRAN SEKTOR! Pretrpeo si štetu od Memory Leak-a (-15 HP)");
    g.move_runner(3, -1);
    assert_eq!(g.runner_bytes, 64);
    assert_eq!(g.dungeon_log, "💎 Sakupio si 64 Bajta čiste memorije!");
    g.move_runner(1, 6);
    assert_eq!(g.runner_pos, (7, 7));
    assert_eq!(g.dungeon_log, "🎉 STIGAO SI DO IZLAZA! Sektor uspešno očaran!");
    assert_eq!(g.grid.iter().flatten().filter(|&&c| c == 'P').count(), 1);
}

#[test]
fn games_trading() {
    let mut g = GamesManager::new();
    g.sell_silicon();
    assert_eq!(g.trader_log, "Nemate silikona u teretnjaku!");
    g.buy_silicon();
    assert_eq!((g.credits, g.cargo_silicon), (90, 1));
    assert_eq!(g.trader_log, "Kupljen 1 Silikon za 10 CR.");
    g.jump_to_planet(2);
    assert_eq!((g.credits, g.current_planet), (85, 2));
    assert_eq!(g.market_prices[2], 44);
    assert_eq!(g.trader_log, "Uspešan skok na Planeta Q2 (EPROM Stanica)!");
    g.sell_silicon();
    assert_eq!((g.credits, g.cargo_silicon), (129, 0));
    assert_eq!(g.trader_log, "Prodat 1 Silikon za 44 CR.");
    g.jump_to_planet(0);
    assert_eq!(g.market_prices[0], 8);
    g.credits = 3;
    g.buy_silicon();
    assert_eq!(g.trader_log, "Nemate dovoljno kredita!");
    g.jump_to_planet(1);
    assert_eq!(g.current_planet, 0);
    assert_eq!(g.credits, 3);
}

#[test]
fn games_price_clamps() {
    let mut g = GamesManager::new();
    g.market_prices[3] = 79;
    g.jump_to_planet(3);
    assert_eq!(g.market_prices[3], 80);
    g.market_prices[0] = 6;
    g.jump_to_planet(0);
    assert_eq!(g.market_prices[0], 5);
    let _ = QuatKernel::new();
    let _ = QuatByte(0);
}
