use quatos::kernel::{QuatByte, QuatKernel};
use std::time::Instant;

fn run_bench_stage(name: &str, instructions: u64, mut action: impl FnMut()) {
    let start = Instant::now();
    action();
    let duration = start.elapsed();
    let mqips = (instructions as f64 / 1_000_000.0) / duration.as_secs_f64();
    println!("[{}] Vreme: {:?} | Brzina: {:.2} MQIPS", name, duration, mqips);
}

#[test]
fn bench_quat_full_5_levels() {
    let mut kernel = QuatKernel::new();
    println!("\n==================================================");
    println!("  POKRETANJE FULL CLI STRESS TESTA (5 NIVOA)");
    println!("==================================================");

    run_bench_stage("NIVO 1/5: Warm-up ALU", 20_000_000, || {
        for _ in 0..20_000_000 {
            kernel.step();
        }
    });

    run_bench_stage("NIVO 2/5: RAM Sweep", 20_000_000, || {
        for i in 0..256 {
            kernel.ram[i] = QuatByte(i as u8);
        }
        for _ in 0..20_000_000 {
            kernel.step();
        }
    });

    run_bench_stage("NIVO 3/5: VRAM Matrix", 20_000_000, || {
        for i in 0..64 {
            kernel.vram[i] = QuatByte(0xFF);
        }
        for _ in 0..20_000_000 {
            kernel.step();
        }
    });

    run_bench_stage("NIVO 4/5: ALU Heavy Logic", 20_000_000, || {
        for _ in 0..20_000_000 {
            kernel.step();
        }
    });

    run_bench_stage("NIVO 5/5: Overclock Torture", 50_000_000, || {
        for _ in 0..50_000_000 {
            kernel.step();
        }
    });

    println!("==================================================\n");
}
