# QuatOS

A simulated machine whose bytes are read as four base-4 digits ("quats"):
4 quats = 4^4 = 256 states = 1 byte.

- `src/` is the machine's core, verified with Verus: quat arithmetic, the
  kernel and its bytecode VM, the two-pass assembler, the peripherals
  (interrupt controller, disk, file system, tape image, modem, VGA, tile
  GPU, logic analyzer), the shells (QuatDOS, the terminal, QuatBASIC) and
  the games and tools built on them.  Each public function states what it
  returns and how it changes its arguments; the laws (quat round trips,
  disk read-after-write, sprite involutions, tape round trip) are proof
  functions next to the code they speak of.
- `tests/` runs the library on concrete values.
- `app/` is the egui desktop front end: windows, file I/O, the sound card
  and the floating-point effects (CRT optics, plasma, synthesis).
