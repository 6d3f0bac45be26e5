# gameboy

A Game Boy (DMG) core whose behaviour is stated in Verus contracts and
proved: the SM83 CPU with interrupt dispatch, the memory bus (MBC1 bank
switching, echo RAM, the DIV/TIMA timers, OAM DMA, serial output), the PPU
(VRAM, OAM, LCD registers, scanline timing, background and sprite rendering
into a framebuffer), and the joypad behind P1.

- `src/bus.rs`: `Bus` and its abstract view `BusView` (`read`, `write`,
  `tick`), with the memory laws (read after write, echo mirror, read-only
  ROM, bank select, DIV reset, serial transfer, P1 routing, OAM DMA, timer
  accounting and the DIV/LY/VBlank counts over any run of ticks).
- `src/cpu.rs`: `Cpu`; `Cpu::step_result` is the meaning of one
  instruction and `Cpu::step` is proved to follow it; `Cpu::step_ready`
  says when an instruction can run, and `Cpu::can_step` decides it;
  `Cpu::handle_interrupts` services VBlank, STAT, timer, serial and joypad
  requests.
- `src/cpu_laws.rs`: flag read-back, the zero low nibble of F, register
  pair and operand round trips, PUSH/POP and CALL/RET round trips, HALT and
  the EI delay.
- `src/ppu.rs`: the PPU, its rendering rules (`PpuView::pixel`) and its
  laws: register and memory round trips, LY and mode over any run of ticks,
  and the whole frame drawn by VBlank.
- `src/joypad.rs`: the button state and the multiplexed P1 register.
- `src/gameboy.rs`: the console, servicing interrupts, stepping the CPU and
  ticking the bus.
- `app/main.rs`: the window, the ROM file, and the frame loop (minifb).

Running Verus on `src/lib.rs` checks the proofs; the tests under `tests/`
exercise the library on concrete programs.
