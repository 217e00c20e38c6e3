use quatos::kernel::{QuatByte, QuatKernel};

#[test]
fn quat_byte_packs_and_splits() {
    assert_eq!(QuatByte::from_quats(0, 2, 2, 2), QuatByte(42));
    assert_eq!(QuatByte::from_quats(3, 3, 3, 3).to_u8(), 255);
    assert_eq!(QuatByte::from_quats(7, 6, 5, 4).to_u8(), 3 * 64 + 2 * 16 + 1 * 4);
    assert_eq!(QuatByte(42).to_quats(), [0, 2, 2, 2]);
    assert_eq!(QuatByte::new(200).to_quats(), [3, 0, 2, 0]);
    assert_eq!(QuatByte::from_u8(9).0, 9);
    assert_eq!(QuatByte(42).to_quat_str(), "Q0222");
    assert_eq!(QuatByte(255).to_quat_str(), "Q3333");
}

#[test]
fn quat_byte_round_trips_for_every_byte() {
    for v in 0..=255u8 {
        let q = QuatByte(v).to_quats();
        assert_eq!(QuatByte::from_quats(q[0], q[1], q[2], q[3]), QuatByte(v));
    }
}

#[test]
fn quat_addition_and_subtraction() {
    assert_eq!(QuatByte(10).add(&QuatByte(5)), (QuatByte(15), false));
    assert_eq!(QuatByte(200).add(&QuatByte(100)), (QuatByte(44), true));
    assert_eq!(QuatByte(255).add(&QuatByte(1)), (QuatByte(0), true));
    assert_eq!(QuatByte(10).sub(&QuatByte(5)), (QuatByte(5), false));
    assert_eq!(QuatByte(5).sub(&QuatByte(10)), (QuatByte(251), true));
    assert_eq!(QuatByte(0).sub(&QuatByte(0)), (QuatByte(0), false));
}

#[test]
fn quat_subtraction_undoes_addition() {
    for a in (0..=255u8).step_by(7) {
        for b in (0..=255u8).step_by(5) {
            let (s, carry) = QuatByte(a).add(&QuatByte(b));
            let (back, borrow) = s.sub(&QuatByte(b));
            assert_eq!(back, QuatByte(a));
            assert_eq!(carry, borrow);
        }
    }
}

#[test]
fn kernel_starts_with_sample_program() {
    let k = QuatKernel::new();
    assert_eq!(k.ram[0], QuatByte(10));
    assert_eq!(k.ram[1], QuatByte(5));
    assert!(k.ram[2..].iter().all(|b| b.0 == 0));
    assert_eq!(k.pc, 0);
    assert!(!k.is_running);
    assert_eq!(
        k.logs,
        vec![
            "QuatKernel 4^4 Inicijalizovan u Nativnom Četvernom Modu.".to_string(),
            "Sample program uspešno učitan u RAM.".to_string()
        ]
    );
}

#[test]
fn kernel_step_adds_and_logs() {
    let mut k = QuatKernel::new();
    k.step();
    assert_eq!(k.reg_a, QuatByte(10));
    assert_eq!(k.pc, 1);
    assert_eq!(k.logs.last().unwrap(), "PC: 00 | RegA = Q0022 (Quats: [0, 0, 2, 2]) | Carry: false");
    k.step();
    assert_eq!(k.reg_a, QuatByte(15));
    assert_eq!(k.logs.last().unwrap(), "PC: 01 | RegA = Q0033 (Quats: [0, 0, 3, 3]) | Carry: false");
    k.reg_a = QuatByte(250);
    k.ram[2] = QuatByte(10);
    k.step();
    assert_eq!(k.reg_a, QuatByte(4));
    assert_eq!(k.logs.last().unwrap(), "PC: 02 | RegA = Q0010 (Quats: [0, 0, 1, 0]) | Carry: true");
}

#[test]
fn kernel_stops_at_address_250() {
    let mut k = QuatKernel::new();
    k.pc = 250;
    k.is_running = true;
    let logs = k.logs.len();
    k.step();
    assert!(!k.is_running);
    assert_eq!(k.pc, 250);
    assert_eq!(k.logs.len(), logs);
}

#[test]
fn kernel_log_keeps_fifty_lines() {
    let mut k = QuatKernel::new();
    for i in 0..60 {
        k.log(format!("line {}", i));
    }
    assert_eq!(k.logs.len(), 50);
    assert_eq!(k.logs[0], "line 10");
    assert_eq!(k.logs[49], "line 59");
}
