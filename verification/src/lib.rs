//! A Game Boy (DMG) core: the SM83 CPU, the memory bus with its MBC1 mapper
//! and timers, OAM DMA and interrupt routing, the PPU with its scanline
//! timing and background and sprite rendering, and the joypad.

pub mod bus;
pub mod cpu;
pub mod cpu_laws;

pub mod gameboy;
pub mod joypad;
pub mod ppu;
