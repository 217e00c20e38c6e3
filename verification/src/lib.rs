//! QuatOS: a simulated machine built on quaternary (base-4) bytes.
//!
//! Each byte is read as four base-4 digits ("quats").  The library holds the
//! machine's verified core: the quat arithmetic, the kernel and its virtual
//! machine, the assembler, the peripherals (disk, network modem, interrupt
//! controller, graphics) and the shells that drive them.

pub mod text;
pub mod symbols;
pub mod kernel;
pub mod assembler;
pub mod quat_vm;
pub mod quat_pic;
pub mod quat_logic;
pub mod quat_fs;
pub mod quat_disk;
pub mod quat_sprite;
pub mod quat_vga;
pub mod quat_net;
pub mod quat_dos;
pub mod terminal;
pub mod games;
pub mod quat_alu;
pub mod quat_gpu;
pub mod quat_tape;
pub mod quat_byte;
pub mod quat_dsp;
pub mod quat_tracker;
pub mod quat_bios;
pub mod quat_bench;
pub mod task_manager;
pub mod crt_screen;
pub mod quat_basic;
pub mod quat_dos_reports;
