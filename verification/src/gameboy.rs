use vstd::prelude::*;
use crate::bus::{Bus, BusView};
use crate::cpu::Cpu;
use crate::cpu_laws::lemma_step_cycles;
use crate::joypad::JoypadView;

verus! {

/// The console: the CPU and the bus it drives.
pub struct GameBoy {
    pub cpu: Cpu,
    pub bus: Bus,
}

impl GameBoy {
    pub fn new(rom: Vec<u8>) -> (gb: Self)
        ensures
            gb.cpu == Cpu::post_boot(),
            gb.bus@ == BusView::power_on(rom@),
    {
        GameBoy { cpu: Cpu::new(), bus: Bus::new(rom) }
    }

    /// Services a pending interrupt, runs one instruction, then advances the
    /// bus by the cycles both took. Returns `None`, before running anything
    /// but the interrupt dispatch, when the instruction cannot run (an
    /// undefined opcode, or a read beyond the cartridge image).
    pub fn step(&mut self) -> (cycles: Option<u32>)
        ensures
            ({
                let (cpu1, mem1, entry) = old(self).cpu.interrupt_result(old(self).bus@);
                if cpu1.step_ready(mem1) {
                    let (cpu2, mem2, n) = cpu1.step_result(mem1);
                    &&& cycles == Some((entry + n) as u32)
                    &&& final(self).cpu == cpu2
                    &&& final(self).bus@ == mem2.tick((entry + n) as u8)
                } else {
                    &&& cycles is None
                    &&& final(self).cpu == cpu1
                    &&& final(self).bus@ == mem1
                }
            }),
    {
        let interrupt_cycles = self.cpu.handle_interrupts(&mut self.bus);
        if !self.cpu.can_step(&self.bus) {
            return None;
        }
        let ghost before = (self.cpu, self.bus@);
        let cycles = self.cpu.step(&mut self.bus);
        proof {
            lemma_step_cycles(before.0, before.1);
        }
        let total = interrupt_cycles + cycles;
        self.bus.tick(total);
        Some(total as u32)
    }

    /// The picture drawn so far: 160 x 144 0RGB pixels, line by line.
    pub fn framebuffer(&self) -> (pixels: &[u32])
        ensures
            pixels@ == self.bus@.ppu.framebuffer,
    {
        self.bus.framebuffer()
    }

    pub fn pc(&self) -> (r: u16)
        ensures
            r == self.cpu.pc,
    {
        self.cpu.pc()
    }

    pub fn set_buttons(
        &mut self,
        right: bool,
        left: bool,
        up: bool,
        down: bool,
        a: bool,
        b: bool,
        select_btn: bool,
        start: bool,
    )
        ensures
            final(self).bus@ == (BusView {
                joypad: JoypadView {
                    right,
                    left,
                    up,
                    down,
                    a,
                    b,
                    select_btn,
                    start,
                    select: old(self).bus@.joypad.select,
                },
                ..old(self).bus@
            }),
            final(self).cpu == old(self).cpu,
    {
        self.bus.set_buttons(right, left, up, down, a, b, select_btn, start);
    }
}

} // verus!
