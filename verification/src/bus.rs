use vstd::prelude::*;
use crate::joypad::{Joypad, JoypadView};
use crate::ppu::{
    Ppu, PpuView, lemma_ppu_view_sizes, lemma_ppu_tick_registers, lemma_tick_advances_dot,
    ppu_after_ticks, total_cycles,
};

verus! {

/// A sequence of `n` zero bytes: the power-on contents of every RAM area.
pub open spec fn zeros(n: nat) -> Seq<u8> {
    Seq::new(n, |i: int| 0u8)
}

/// The abstract state of the memory bus: the cartridge and its mapper state,
/// the PPU and joypad it routes to, every RAM byte it holds, the timer
/// accumulators, and the bytes sent over the serial port that have not been
/// taken yet.
pub struct BusView {
    pub rom: Seq<u8>,
    pub rom_bank: u8,
    pub ram_enabled: bool,
    pub ppu: PpuView,
    pub joypad: JoypadView,
    pub cart_ram: Seq<u8>,
    pub wram: Seq<u8>,
    pub io: Seq<u8>,
    pub hram: Seq<u8>,
    pub ie: u8,
    pub div_cycles: u16,
    pub tima_cycles: u32,
    pub serial: Seq<u8>,
}

/// Cycles between two TIMA increments for the clock select bits of TAC.
pub open spec fn timer_period(select: u8) -> int {
    if select == 0 {
        1024
    } else if select == 1 {
        16
    } else if select == 2 {
        64
    } else {
        256
    }
}

/// Drains the TIMA accumulator `acc` in steps of `period` cycles: each step
/// increments TIMA (`io[0x05]`); on overflow TIMA is reloaded from TMA
/// (`io[0x06]`) and the timer interrupt (IF bit 2) is requested.
/// Returns the remaining accumulator and the new I/O registers.
pub open spec fn run_timer(io: Seq<u8>, acc: int, period: int) -> (int, Seq<u8>)
    decreases acc,
{
    if period > 0 && acc >= period {
        let next = if io[0x05] == 0xFF {
            io.update(0x05, io[0x06]).update(0x0F, io[0x0F] | 0x04)
        } else {
            io.update(0x05, (io[0x05] + 1) as u8)
        };
        run_timer(next, acc - period, period)
    } else {
        (acc, io)
    }
}

/// The address ranges that hold plain bytes: whatever is written there reads
/// back unchanged. (ROM, the mapper registers, the unusable area 0xFEA0..=0xFEFF,
/// the joypad register P1 0xFF00, the serial control register 0xFF02, DIV
/// 0xFF04, LY 0xFF44 and the OAM DMA register 0xFF46 are not plain.)
pub open spec fn plain(addr: u16) -> bool {
    ||| (0x8000 <= addr && addr <= 0xFE9F)
    ||| (0xFF00 < addr && addr != 0xFF02 && addr != 0xFF04 && addr != 0xFF44 && addr != 0xFF46)
}

/// The single storage cell behind a plain address: echo RAM 0xE000..=0xFDFF
/// shares its cells with 0xC000..=0xDDFF.
pub open spec fn cell(addr: u16) -> int {
    if 0xE000 <= addr && addr <= 0xFDFF {
        addr - 0x2000
    } else {
        addr as int
    }
}

impl BusView {
    /// The bus at power-on with cartridge image `rom`: bank 1 mapped, RAM
    /// disabled, every RAM area and register zero, no serial output.
    pub open spec fn power_on(rom: Seq<u8>) -> BusView {
        BusView {
            rom,
            rom_bank: 1,
            ram_enabled: false,
            ppu: PpuView::power_on(),
            joypad: JoypadView::power_on(),
            cart_ram: zeros(0x2000),
            wram: zeros(0x2000),
            io: zeros(0x80),
            hram: zeros(0x7F),
            ie: 0,
            div_cycles: 0,
            tima_cycles: 0,
            serial: Seq::empty(),
        }
    }

    /// Every storage area has the size the memory map gives it.
    pub open spec fn wf(self) -> bool {
        &&& self.ppu.wf()
        &&& self.cart_ram.len() == 0x2000
        &&& self.wram.len() == 0x2000
        &&& self.io.len() == 0x80
        &&& self.hram.len() == 0x7F
    }

    /// Reading `addr` is defined: ROM addresses must fall inside the cartridge
    /// image (the fixed bank for 0x0000..=0x3FFF, the selected bank above).
    pub open spec fn readable(self, addr: u16) -> bool {
        if addr <= 0x3FFF {
            (addr as int) < self.rom.len()
        } else if addr <= 0x7FFF {
            self.rom_bank as int * 0x4000 + (addr - 0x4000) < self.rom.len()
        } else {
            true
        }
    }

    /// The byte the CPU sees at `addr`: VRAM, OAM and the LCD registers
    /// 0xFF40..=0xFF4B come from the PPU, P1 (0xFF00) from the joypad.
    pub open spec fn read(self, addr: u16) -> u8 {
        if addr <= 0x3FFF {
            self.rom[addr as int]
        } else if addr <= 0x7FFF {
            self.rom[self.rom_bank as int * 0x4000 + (addr - 0x4000)]
        } else if addr <= 0x9FFF {
            self.ppu.vram[addr - 0x8000]
        } else if addr <= 0xBFFF {
            self.cart_ram[addr - 0xA000]
        } else if addr <= 0xDFFF {
            self.wram[addr - 0xC000]
        } else if addr <= 0xFDFF {
            self.wram[addr - 0xE000]
        } else if addr <= 0xFE9F {
            self.ppu.oam[addr - 0xFE00]
        } else if addr <= 0xFEFF {
            0xFF
        } else if addr == 0xFF00 {
            self.joypad.read()
        } else if 0xFF40 <= addr && addr <= 0xFF4B {
            self.ppu.register(addr)
        } else if addr <= 0xFF7F {
            self.io[addr - 0xFF00]
        } else if addr <= 0xFFFE {
            self.hram[addr - 0xFF80]
        } else {
            self.ie
        }
    }

    /// The byte OAM DMA copies from `addr`: what the CPU would read there, or
    /// 0xFF (the open bus) where the cartridge image does not reach.
    pub open spec fn dma_byte(self, addr: u16) -> u8 {
        if self.readable(addr) {
            self.read(addr)
        } else {
            0xFF
        }
    }

    /// The 0xA0 bytes an OAM DMA from page `high` copies: 0xXX00..=0xXX9F.
    pub open spec fn dma_source(self, high: u8) -> Seq<u8> {
        Seq::new(0xA0, |k: int| self.dma_byte((high as int * 256 + k) as u16))
    }

    /// The little-endian word at `addr` (high byte at `addr + 1`, wrapping).
    pub open spec fn read_word(self, addr: u16) -> u16 {
        (self.read(addr) as int + 256 * self.read(addr.wrapping_add(1)) as int) as u16
    }

    /// The bus after the CPU writes `value` to `addr`. Writing 0xFF46 starts
    /// OAM DMA: the page `value` * 0x100 ..= `value` * 0x100 + 0x9F is copied
    /// into OAM at once.
    pub open spec fn write(self, addr: u16, value: u8) -> BusView {
        if addr <= 0x1FFF {
            BusView { ram_enabled: (value & 0x0F) == 0x0A, ..self }
        } else if addr <= 0x3FFF {
            BusView { rom_bank: if (value & 0x1F) == 0 { 1 } else { value & 0x1F }, ..self }
        } else if addr <= 0x7FFF {
            self
        } else if addr <= 0x9FFF {
            BusView { ppu: PpuView { vram: self.ppu.vram.update(addr - 0x8000, value), ..self.ppu }, ..self }
        } else if addr <= 0xBFFF {
            BusView { cart_ram: self.cart_ram.update(addr - 0xA000, value), ..self }
        } else if addr <= 0xDFFF {
            BusView { wram: self.wram.update(addr - 0xC000, value), ..self }
        } else if addr <= 0xFDFF {
            BusView { wram: self.wram.update(addr - 0xE000, value), ..self }
        } else if addr <= 0xFE9F {
            BusView { ppu: PpuView { oam: self.ppu.oam.update(addr - 0xFE00, value), ..self.ppu }, ..self }
        } else if addr <= 0xFEFF {
            self
        } else if addr == 0xFF00 {
            BusView { joypad: JoypadView { select: value & 0x30, ..self.joypad }, ..self }
        } else if addr == 0xFF02 {
            BusView {
                io: self.io.update(0x02, value & 0x7F),
                serial: if (value & 0x80) != 0 { self.serial.push(self.io[0x01]) } else { self.serial },
                ..self
            }
        } else if addr == 0xFF04 {
            BusView { io: self.io.update(0x04, 0), div_cycles: 0, ..self }
        } else if addr == 0xFF46 {
            BusView { ppu: PpuView { oam: self.dma_source(value), ..self.ppu }, ..self }
        } else if 0xFF40 <= addr && addr <= 0xFF4B {
            BusView { ppu: self.ppu.with_register(addr, value), ..self }
        } else if addr <= 0xFF7F {
            BusView { io: self.io.update(addr - 0xFF00, value), ..self }
        } else if addr <= 0xFFFE {
            BusView { hram: self.hram.update(addr - 0xFF80, value), ..self }
        } else {
            BusView { ie: value, ..self }
        }
    }

    /// The bus after writing the little-endian word `value` at `addr`.
    pub open spec fn write_word(self, addr: u16, value: u16) -> BusView {
        self.write(addr, (value % 256) as u8).write(addr.wrapping_add(1), (value / 256) as u8)
    }

    /// The bus after `cycles` clock cycles: the PPU ticks and the interrupts
    /// it asks for are requested in IF (VBlank bit 0, STAT bit 1), DIV counts
    /// every 256 cycles, and TIMA counts at the TAC rate while TAC bit 2 is set.
    pub open spec fn tick(self, cycles: u8) -> BusView {
        let d = self.div_cycles + cycles;
        let div = if d >= 256 { d - 256 } else { d };
        let ppu = self.ppu.tick(cycles).0;
        let io = self.io_before_timer(cycles);
        if (io[0x07] & 0x04) != 0 {
            let timer = run_timer(io, self.tima_cycles + cycles, timer_period(io[0x07] & 0x03));
            BusView { ppu, div_cycles: div as u16, tima_cycles: timer.0 as u32, io: timer.1, ..self }
        } else {
            BusView { ppu, div_cycles: div as u16, io, ..self }
        }
    }

    /// The I/O registers once a tick of `cycles` has requested the PPU's
    /// interrupts in IF and advanced DIV, before TIMA runs.
    pub open spec fn io_before_timer(self, cycles: u8) -> Seq<u8> {
        let irq = self.ppu.tick(cycles).1;
        let f = self.io[0x0F];
        let f1 = if irq.vblank { f | 0x01 } else { f };
        let f2 = if irq.stat { f1 | 0x02 } else { f1 };
        let io1 = self.io.update(0x0F, f2);
        if self.div_cycles + cycles >= 256 {
            io1.update(0x04, io1[0x04].wrapping_add(1))
        } else {
            io1
        }
    }
}

/// The memory bus: cartridge ROM with an MBC1 bank register, the PPU (video
/// RAM, OAM, LCD registers), the joypad, cartridge, work and high RAM, the I/O
/// registers with the DIV/TIMA timers, and the interrupt enable register.
pub struct Bus {
    rom: Vec<u8>,
    rom_bank: u8,
    ram_enabled: bool,
    ppu: Ppu,
    joypad: Joypad,
    cart_ram: [u8; 0x2000],
    wram: [u8; 0x2000],
    io: [u8; 0x80],
    hram: [u8; 0x7F],
    ie: u8,
    timers: Timers,
    serial: Vec<u8>,
}

/// The cycle accumulators of the DIV and TIMA counters.
struct Timers {
    div_cycles: u16,
    tima_cycles: u32,
}

impl Timers {
    /// Each accumulator stays below its period.
    #[verifier::type_invariant]
    spec fn in_range(self) -> bool {
        &&& self.div_cycles < 256
        &&& self.tima_cycles < 1024
    }
}

impl View for Bus {
    type V = BusView;

    closed spec fn view(&self) -> BusView {
        BusView {
            rom: self.rom@,
            rom_bank: self.rom_bank,
            ram_enabled: self.ram_enabled,
            ppu: self.ppu@,
            joypad: self.joypad@,
            cart_ram: self.cart_ram@,
            wram: self.wram@,
            io: self.io@,
            hram: self.hram@,
            ie: self.ie,
            div_cycles: self.timers.div_cycles,
            tima_cycles: self.timers.tima_cycles,
            serial: self.serial@,
        }
    }
}

impl Bus {
    pub fn new(rom: Vec<u8>) -> (bus: Self)
        ensures
            bus@ == BusView::power_on(rom@),
    {
        let bus = Bus {
            rom,
            rom_bank: 1,
            ram_enabled: false,
            ppu: Ppu::new(),
            joypad: Joypad::new(),
            cart_ram: [0; 0x2000],
            wram: [0; 0x2000],
            io: [0; 0x80],
            hram: [0; 0x7F],
            ie: 0,
            timers: Timers { div_cycles: 0, tima_cycles: 0 },
            serial: Vec::new(),
        };
        assert(bus.cart_ram@ =~= zeros(0x2000));
        assert(bus.wram@ =~= zeros(0x2000));
        assert(bus.io@ =~= zeros(0x80));
        assert(bus.hram@ =~= zeros(0x7F));
        bus
    }

    /// Whether reading `addr` is defined (the ROM image covers it).
    pub fn can_read(&self, addr: u16) -> (r: bool)
        ensures
            r == self@.readable(addr),
    {
        if addr <= 0x3FFF {
            (addr as usize) < self.rom.len()
        } else if addr <= 0x7FFF {
            self.rom_bank as usize * 0x4000 + (addr as usize - 0x4000) < self.rom.len()
        } else {
            true
        }
    }

    pub fn read_byte(&self, addr: u16) -> (r: u8)
        requires
            self@.readable(addr),
        ensures
            r == self@.read(addr),
    {
        if addr <= 0x3FFF {
            self.rom[addr as usize]
        } else if addr <= 0x7FFF {
            let bank_base = self.rom_bank as usize * 0x4000;
            let offset = addr as usize - 0x4000;
            self.rom[bank_base + offset]
        } else if addr <= 0x9FFF {
            self.ppu.read_vram(addr)
        } else if addr <= 0xBFFF {
            self.cart_ram[(addr - 0xA000) as usize]
        } else if addr <= 0xDFFF {
            self.wram[(addr - 0xC000) as usize]
        } else if addr <= 0xFDFF {
            self.wram[(addr - 0xE000) as usize]
        } else if addr <= 0xFE9F {
            self.ppu.read_oam(addr)
        } else if addr <= 0xFEFF {
            0xFF
        } else if addr == 0xFF00 {
            self.joypad.read()
        } else if 0xFF40 <= addr && addr <= 0xFF4B {
            self.ppu.read_register(addr)
        } else if addr <= 0xFF7F {
            self.io[(addr - 0xFF00) as usize]
        } else if addr <= 0xFFFE {
            self.hram[(addr - 0xFF80) as usize]
        } else {
            self.ie
        }
    }

    /// Writes `value` to `addr`. Writing 0xFF02 with bit 7 set starts a serial
    /// transfer: the SB byte (0xFF01) is queued for `take_serial`. Writing
    /// 0xFF46 copies the page `value` * 0x100 into OAM (OAM DMA).
    pub fn write_byte(&mut self, addr: u16, value: u8)
        ensures
            final(self)@ == old(self)@.write(addr, value),
    {
        if addr <= 0x1FFF {
            // RAM enable: 0x0A in the low nibble enables, anything else disables
            self.ram_enabled = (value & 0x0F) == 0x0A;
        } else if addr <= 0x3FFF {
            // ROM bank select (low 5 bits). Bank 0 remaps to 1.
            let bank = value & 0x1F;
            self.rom_bank = if bank == 0 { 1 } else { bank };
        } else if addr <= 0x7FFF {
            // Upper bits / mode -- unused for 512KB (32 banks fit in 5 bits).
        } else if addr <= 0x9FFF {
            self.ppu.write_vram(addr, value);
        } else if addr <= 0xBFFF {
            self.cart_ram[(addr - 0xA000) as usize] = value;
        } else if addr <= 0xDFFF {
            self.wram[(addr - 0xC000) as usize] = value;
        } else if addr <= 0xFDFF {
            self.wram[(addr - 0xE000) as usize] = value;
        } else if addr <= 0xFE9F {
            self.ppu.write_oam(addr, value);
        } else if addr <= 0xFEFF {
        } else if addr == 0xFF00 {
            self.joypad.write(value);
        } else if addr == 0xFF02 {
            // SC, serial control -- bit 7 starts a transfer of the SB byte
            if value & 0x80 != 0 {
                let byte = self.io[0x01];
                self.serial.push(byte);
            }
            self.io[0x02] = value & 0x7F;  // clear start bit
        } else if addr == 0xFF04 {
            // DIV -- any write resets it (and its accumulator) to zero
            self.io[0x04] = 0;
            proof {
                use_type_invariant(&self.timers);
            }
            self.timers = Timers { div_cycles: 0, ..self.timers };
        } else if addr == 0xFF46 {
            self.oam_dma(value);
        } else if 0xFF40 <= addr && addr <= 0xFF4B {
            self.ppu.write_register(addr, value);
        } else if addr <= 0xFF7F {
            self.io[(addr - 0xFF00) as usize] = value;
        } else if addr <= 0xFFFE {
            self.hram[(addr - 0xFF80) as usize] = value;
        } else {
            self.ie = value;
        }
    }

    /// OAM DMA: copies 0xA0 bytes from page `high` into OAM in one go.
    fn oam_dma(&mut self, high: u8)
        ensures
            final(self)@ == (BusView {
                ppu: PpuView { oam: old(self)@.dma_source(high), ..old(self)@.ppu },
                ..old(self)@
            }),
    {
        let base: u16 = (high as u16) * 256;
        let mut data: Vec<u8> = Vec::new();
        let mut k: u16 = 0;
        while k < 0xA0
            invariant
                k <= 0xA0,
                base as int == high as int * 256,
                data@ =~= Seq::new(k as nat, |j: int| self@.dma_byte((high as int * 256 + j) as u16)),
            decreases 0xA0 - k,
        {
            let addr = base + k;
            let byte = if self.can_read(addr) {
                self.read_byte(addr)
            } else {
                0xFF  // open bus beyond the cartridge image
            };
            data.push(byte);
            k = k + 1;
        }
        let ghost before = self@;
        proof {
            lemma_ppu_view_sizes(self.ppu);
            assert(data@ =~= before.dma_source(high));
            assert(data@.subrange(0, 0) + before.ppu.oam.subrange(0, 0xA0) =~= before.ppu.oam);
        }
        let mut i: u16 = 0;
        while i < 0xA0
            invariant
                i <= 0xA0,
                data@.len() == 0xA0,
                data@ =~= before.dma_source(high),
                before.ppu.oam.len() == 0xA0,
                self@ == (BusView {
                    ppu: PpuView {
                        oam: data@.subrange(0, i as int) + before.ppu.oam.subrange(i as int, 0xA0),
                        ..before.ppu
                    },
                    ..before
                }),
            decreases 0xA0 - i,
        {
            let ghost cur = self@.ppu.oam;
            self.ppu.write_oam(0xFE00 + i, data[i as usize]);
            assert(self@.ppu.oam =~= data@.subrange(0, i + 1) + before.ppu.oam.subrange(i + 1, 0xA0));
            i = i + 1;
        }
        assert(data@.subrange(0, 0xA0) + before.ppu.oam.subrange(0xA0, 0xA0) =~= data@);
    }

    pub fn read_word(&self, addr: u16) -> (r: u16)
        requires
            self@.readable(addr),
            self@.readable(addr.wrapping_add(1)),
        ensures
            r == self@.read_word(addr),
    {
        let low = self.read_byte(addr) as u16;
        let high = self.read_byte(addr.wrapping_add(1)) as u16;
        low + high * 256
    }

    pub fn write_word(&mut self, addr: u16, value: u16)
        ensures
            final(self)@ == old(self)@.write_word(addr, value),
    {
        self.write_byte(addr, (value % 256) as u8);
        self.write_byte(addr.wrapping_add(1), (value / 256) as u8);
    }

    /// Sets which joypad buttons are held.
    pub fn set_buttons(
        &mut self,
        right: bool,
        left: bool,
        up: bool,
        down: bool,
        a: bool,
        b: bool,
        select_btn: bool,
        start: bool,
    )
        ensures
            final(self)@ == (BusView {
                joypad: JoypadView {
                    right,
                    left,
                    up,
                    down,
                    a,
                    b,
                    select_btn,
                    start,
                    select: old(self)@.joypad.select,
                },
                ..old(self)@
            }),
    {
        self.joypad.set_buttons(right, left, up, down, a, b, select_btn, start);
    }

    /// Advances the PPU, DIV and TIMA by `cycles` clock cycles, requesting the
    /// interrupts they raise.
    pub fn tick(&mut self, cycles: u8)
        ensures
            final(self)@ == old(self)@.tick(cycles),
    {
        let ghost start = self@;
        // The PPU owns LY and STAT; it reports the interrupts it wants raised.
        let interrupts = self.ppu.tick(cycles);
        if interrupts.vblank {
            self.io[0x0F] = self.io[0x0F] | 0x01;  // IF bit 0
        }
        if interrupts.stat {
            self.io[0x0F] = self.io[0x0F] | 0x02;  // IF bit 1
        }

        proof {
            use_type_invariant(&self.timers);
        }
        assert(self@ == (BusView { ppu: start.ppu.tick(cycles).0, io: self@.io, ..start }));
        assert(self@.io =~= start.io.update(0x0F, self@.io[0x0F]));
        assert(self@.io[0x0F] == start.io_before_timer(cycles)[0x0F]);
        // DIV: free-running, increments every 256 cycles
        let mut div_cycles = self.timers.div_cycles + cycles as u16;
        if div_cycles >= 256 {
            div_cycles -= 256;
            self.io[0x04] = self.io[0x04].wrapping_add(1);
        }
        assert(self@.io =~= start.io_before_timer(cycles));

        // TIMA: configurable counter, only when enabled (TAC bit 2)
        let mut tima_cycles = self.timers.tima_cycles;
        if self.io[0x07] & 0x04 != 0 {
            let select = self.io[0x07] & 0x03;
            let threshold: u32 = if select == 0 {
                1024  // 4096 Hz
            } else if select == 1 {
                16  // 262144 Hz
            } else if select == 2 {
                64  // 65536 Hz
            } else {
                256  // 16384 Hz
            };
            assert(threshold == timer_period(self.io@[0x07] & 0x03));

            tima_cycles += cycles as u32;
            let ghost target = run_timer(self.io@, tima_cycles as int, threshold as int);
            let ghost before = self@;
            // while, not if: a single instruction can cross the threshold more
            // than once at the fastest (16-cycle) rate.
            while tima_cycles >= threshold
                invariant
                    16 <= threshold <= 1024,
                    tima_cycles < 1024 + 256,
                    self.io@.len() == 0x80,
                    run_timer(self.io@, tima_cycles as int, threshold as int) == target,
                    self@ == (BusView { io: self@.io, ..before }),
                decreases tima_cycles,
            {
                tima_cycles -= threshold;
                let tima = self.io[0x05];
                if tima == 0xFF {
                    // On overflow: reload from TMA (not 0) and request the
                    // timer interrupt (IF bit 2).
                    self.io[0x05] = self.io[0x06];
                    self.io[0x0F] = self.io[0x0F] | 0x04;
                } else {
                    self.io[0x05] = tima + 1;
                }
            }
        }
        self.timers = Timers { div_cycles, tima_cycles };
    }

    /// The PPU's framebuffer: 160 x 144 0RGB pixels, line by line.
    pub fn framebuffer(&self) -> (pixels: &[u32])
        ensures
            pixels@ == self@.ppu.framebuffer,
    {
        self.ppu.framebuffer()
    }

    /// Hands out the bytes sent over the serial port since the last call.
    pub fn take_serial(&mut self) -> (out: Vec<u8>)
        ensures
            out@ == old(self)@.serial,
            final(self)@ == (BusView { serial: Seq::empty(), ..old(self)@ }),
    {
        let mut out: Vec<u8> = Vec::new();
        std::mem::swap(&mut out, &mut self.serial);
        out
    }
}

} // verus!

verus! {

/// Every bus view is well formed: each storage area has its mapped size.
pub proof fn lemma_bus_view_wf(bus: Bus)
    ensures
        bus@.wf(),
{
    lemma_ppu_view_sizes(bus.ppu);
}

/// Writing any address, and ticking, keep every storage area at its size.
pub proof fn lemma_wf_preserved(m: BusView, addr: u16, value: u8, cycles: u8)
    requires
        m.wf(),
    ensures
        m.write(addr, value).wf(),
        m.tick(cycles).wf(),
{
    lemma_run_timer_frame(m.io_before_timer(cycles), m.tima_cycles + cycles,
        timer_period(m.io_before_timer(cycles)[0x07] & 0x03));
}

/// Running the timer only touches TIMA (0xFF05) and IF (0xFF0F), never clears a
/// requested interrupt, and consumes the accumulator in whole periods until
/// less than one period is left.
pub proof fn lemma_run_timer_frame(io: Seq<u8>, acc: int, period: int)
    requires
        io.len() == 0x80,
        acc >= 0,
    ensures
        run_timer(io, acc, period).1.len() == 0x80,
        forall|i: int| 0 <= i < 0x80 && i != 0x05 && i != 0x0F
            ==> #[trigger] run_timer(io, acc, period).1[i] == io[i],
        run_timer(io, acc, period).1[0x0F] & io[0x0F] == io[0x0F],
        run_timer(io, acc, period).1[0x0F] & 0x01 == io[0x0F] & 0x01,
        period > 0 ==> 0 <= run_timer(io, acc, period).0 < period,
        period > 0 ==> (acc - run_timer(io, acc, period).0) % period == 0,
        period <= 0 ==> run_timer(io, acc, period).0 == acc,
    decreases acc,
{
    if period > 0 && acc >= period {
        let f = io[0x0F];
        let next = if io[0x05] == 0xFF {
            io.update(0x05, io[0x06]).update(0x0F, io[0x0F] | 0x04)
        } else {
            io.update(0x05, (io[0x05] + 1) as u8)
        };
        assert((f | 0x04) & f == f && (f | 0x04) & 0x01 == f & 0x01) by (bit_vector);
        lemma_run_timer_frame(next, acc - period, period);
        let rest = run_timer(next, acc - period, period).0;
        vstd::arithmetic::div_mod::lemma_mod_add_multiples_vanish(acc - period - rest, period);
        let g = run_timer(next, acc - period, period).1[0x0F];
        let n = next[0x0F];
        assert(g & n == n && n & f == f ==> g & f == f) by (bit_vector);
    } else {
        assert(io[0x0F] & io[0x0F] == io[0x0F]) by (bit_vector);
        if period > 0 {
            assert((acc - acc) % period == 0);
        }
    }
}

/// A plain address reads back the last byte written to it.
pub proof fn lemma_read_after_write(m: BusView, addr: u16, value: u8)
    requires
        m.wf(),
        plain(addr),
    ensures
        m.write(addr, value).read(addr) == value,
{
}

/// Plain memory is a store of cells: a write changes exactly the cell it
/// addresses (and its echo alias), and no other plain address; only OAM DMA
/// (a write to 0xFF46) reaches further.
pub proof fn lemma_write_other_cell(m: BusView, addr: u16, other: u16, value: u8)
    requires
        m.wf(),
        plain(other),
        cell(addr) != cell(other),
        addr != 0xFF46,
    ensures
        m.write(addr, value).read(other) == m.read(other),
{
}

/// Echo RAM 0xE000..=0xFDFF mirrors work RAM 0xC000..=0xDDFF.
pub proof fn lemma_echo_mirrors_wram(m: BusView, addr: u16)
    requires
        0xE000 <= addr <= 0xFDFF,
    ensures
        m.read(addr) == m.read((addr - 0x2000) as u16),
{
}

/// The cartridge ROM is read-only: no write changes its contents or what the
/// fixed bank 0x0000..=0x3FFF reads.
pub proof fn lemma_rom_read_only(m: BusView, addr: u16, value: u8, other: u16)
    requires
        other <= 0x3FFF,
    ensures
        m.write(addr, value).rom == m.rom,
        m.write(addr, value).read(other) == m.read(other),
{
}

/// A write to 0x2000..=0x3FFF selects ROM bank `value & 0x1F`, with bank 0
/// mapped to 1, so the switchable window never shows bank 0.
pub proof fn lemma_bank_select(m: BusView, addr: u16, value: u8)
    requires
        0x2000 <= addr <= 0x3FFF,
    ensures
        m.write(addr, value).rom_bank == (if value % 32 == 0 { 1 } else { value % 32 }),
        1 <= m.write(addr, value).rom_bank <= 31,
{
    assert(value & 0x1F == value % 32) by (bit_vector);
}

/// The switchable window 0x4000..=0x7FFF shows the selected bank of the
/// cartridge: a read there gives the ROM byte at `bank * 0x4000` plus the
/// offset into the window, for every bank 1..=31; after a write of `value` to
/// 0x2000..=0x3FFF, offset `k` of the window reads the byte at offset `k` of
/// bank `value % 32` (bank 1 for 0).
pub proof fn lemma_switchable_bank_read(m: BusView, select_addr: u16, value: u8, k: int)
    requires
        0x2000 <= select_addr <= 0x3FFF,
        0 <= k < 0x4000,
    ensures
        ({
            let bank: int = if value % 32 == 0 { 1 } else { (value % 32) as int };
            m.write(select_addr, value).read((0x4000 + k) as u16) == m.rom[bank * 0x4000 + k]
        }),
        forall|addr: u16|
            0x4000 <= addr <= 0x7FFF ==> #[trigger] m.read(addr) == m.rom[m.rom_bank * 0x4000 + (addr
                - 0x4000)],
{
    lemma_bank_select(m, select_addr, value);
}

/// Writing DIV (0xFF04) resets it and its accumulator, whatever the value.
pub proof fn lemma_div_write_resets(m: BusView, value: u8)
    requires
        m.wf(),
    ensures
        m.write(0xFF04, value).read(0xFF04) == 0,
        m.write(0xFF04, value).div_cycles == 0,
{
}

/// Writing SC (0xFF02) with bit 7 set sends SB (0xFF01) over the serial port;
/// the start bit reads back cleared.
pub proof fn lemma_serial_transfer(m: BusView, value: u8)
    requires
        m.wf(),
    ensures
        m.write(0xFF02, value).read(0xFF02) == value & 0x7F,
        m.write(0xFF02, value).serial == (if value >= 0x80 { m.serial.push(m.read(0xFF01)) } else { m.serial }),
{
    assert((value & 0x80 != 0) == (value >= 0x80)) by (bit_vector);
}

/// A word written to two plain, non-aliasing addresses reads back unchanged.
pub proof fn lemma_word_round_trip(m: BusView, addr: u16, value: u16)
    requires
        m.wf(),
        plain(addr),
        plain(addr.wrapping_add(1)),
    ensures
        m.write_word(addr, value).read_word(addr) == value,
{
    let lo = (value % 256) as u8;
    let hi = (value / 256) as u8;
    let m1 = m.write(addr, lo);
    let next = addr.wrapping_add(1);
    assert(cell(addr) != cell(next));
    lemma_read_after_write(m, addr, lo);
    lemma_wf_preserved(m, addr, lo, 0);
    lemma_read_after_write(m1, next, hi);
    lemma_write_other_cell(m1, next, addr, hi);
}

/// Ticking never clears a requested interrupt (IF, 0xFF0F), and changes no
/// memory but STAT (0xFF41), LY (0xFF44), DIV (0xFF04), TIMA (0xFF05) and IF.
pub proof fn lemma_tick_frame(m: BusView, cycles: u8, addr: u16)
    requires
        m.wf(),
        addr != 0xFF04 && addr != 0xFF05 && addr != 0xFF0F && addr != 0xFF41 && addr != 0xFF44,
    ensures
        m.tick(cycles).read(0xFF0F) & m.read(0xFF0F) == m.read(0xFF0F),
        m.tick(cycles).read(addr) == m.read(addr),
        m.tick(cycles).readable(addr) == m.readable(addr),
{
    let f0 = m.io[0x0F];
    let irq = m.ppu.tick(cycles).1;
    let f1 = if irq.vblank { f0 | 0x01 } else { f0 };
    let f2 = if irq.stat { f1 | 0x02 } else { f1 };
    assert(((f0 | 0x01) | 0x02) & f0 == f0 && (f0 | 0x01) & f0 == f0 && (f0 | 0x02) & f0 == f0
        && f0 & f0 == f0) by (bit_vector);
    let io1 = m.io_before_timer(cycles);
    assert(io1[0x0F] & f0 == f0);
    let period = timer_period(io1[0x07] & 0x03);
    lemma_run_timer_frame(io1, m.tima_cycles + cycles, period);
    let g = run_timer(io1, m.tima_cycles + cycles, period).1[0x0F];
    let f = io1[0x0F];
    assert(g & f == f && f & f0 == f0 ==> g & f0 == f0) by (bit_vector);
    if 0xFF40 <= addr && addr <= 0xFF4B {
        lemma_ppu_tick_registers(m.ppu, cycles, addr);
    }
}

/// The timers never lose cycles: after a tick, the DIV accumulator plus 256
/// for each DIV increment equals the old accumulator plus the elapsed cycles.
pub proof fn lemma_tick_accounts_cycles(m: BusView, cycles: u8)
    requires
        m.wf(),
        m.div_cycles < 256,
    ensures
        m.div_cycles + cycles == m.tick(cycles).div_cycles
            + 256 * ((m.tick(cycles).io[0x04] - m.io[0x04] + 256) % 256),
        m.tick(cycles).div_cycles < 256,
{
    let io1 = m.io_before_timer(cycles);
    let period = timer_period(io1[0x07] & 0x03);
    lemma_run_timer_frame(io1, m.tima_cycles + cycles, period);
}

/// While TAC enables the timer, a tick adds its cycles to the TIMA
/// accumulator and drains it in whole periods of the selected rate, leaving
/// less than one period; while disabled, the accumulator is left alone.
pub proof fn lemma_tick_timer_accumulator(m: BusView, cycles: u8)
    requires
        m.wf(),
    ensures
        ({
            let t = m.tick(cycles);
            let tac = m.io[0x07];
            let period = timer_period(tac & 0x03);
            if tac & 0x04 != 0 {
                &&& t.tima_cycles < period
                &&& (m.tima_cycles + cycles - t.tima_cycles) % period == 0
            } else {
                t.tima_cycles == m.tima_cycles
            }
        }),
{
    let io1 = m.io_before_timer(cycles);
    assert(io1[0x07] == m.io[0x07]);
    let period = timer_period(io1[0x07] & 0x03);
    lemma_run_timer_frame(io1, m.tima_cycles + cycles, period);
}

/// P1 (0xFF00) is the joypad: it reads what the joypad reads, and a write
/// sets the joypad's selection bits.
pub proof fn lemma_p1_is_the_joypad(m: BusView, value: u8)
    ensures
        m.read(0xFF00) == m.joypad.read(),
        m.write(0xFF00, value).joypad.select == value & 0x30,
        m.write(0xFF00, value).read(0xFF00) == m.write(0xFF00, value).joypad.read(),
{
}

/// OAM DMA: writing `high` to 0xFF46 fills OAM with the 0xA0 bytes the CPU
/// reads at `high` * 0x100 ..= `high` * 0x100 + 0x9F (0xFF where the cartridge
/// image does not reach).
pub proof fn lemma_oam_dma(m: BusView, high: u8, k: int)
    requires
        m.wf(),
        0 <= k < 0xA0,
    ensures
        ({
            let src = (high as int * 256 + k) as u16;
            m.write(0xFF46, high).read((0xFE00 + k) as u16)
                == (if m.readable(src) { m.read(src) } else { 0xFF })
        }),
{
}

/// The bus after ticking through `cycles`, one tick per entry, in order.
pub open spec fn bus_after_ticks(m: BusView, cycles: Seq<u8>) -> BusView
    decreases cycles.len(),
{
    if cycles.len() == 0 {
        m
    } else {
        bus_after_ticks(m, cycles.drop_last()).tick(cycles.last())
    }
}

impl BusView {
    /// DIV and its accumulator count `t` cycles: DIV is `t / 256` modulo 256.
    pub open spec fn div_at(self, t: int) -> bool {
        &&& self.io[0x04] as int == (t / 256) % 256
        &&& self.div_cycles as int == t % 256
    }

    /// The bus is `t` cycles after power-on, with no write to DIV, IF or the
    /// PPU registers since: the PPU's line and DIV count `t` cycles, and the
    /// VBlank request (IF bit 0) is set exactly when line 144 has been reached.
    pub open spec fn timed(self, t: int) -> bool {
        &&& self.ppu.at_dot(t)
        &&& self.div_at(t)
        &&& (self.io[0x0F] & 0x01 != 0) == (t >= 144 * 456)
    }
}

/// A tick of `cycles` moves a bus `t` cycles after power-on to `t + cycles`.
pub proof fn lemma_tick_keeps_time(m: BusView, t: int, cycles: u8)
    requires
        m.wf(),
        t >= 0,
        m.timed(t),
    ensures
        m.tick(cycles).timed(t + cycles),
{
    let t2 = t + cycles;
    lemma_tick_advances_dot(m.ppu, t, cycles);
    let irq = m.ppu.tick(cycles).1;
    let io1 = m.io_before_timer(cycles);
    let period = timer_period(io1[0x07] & 0x03);
    lemma_run_timer_frame(io1, m.tima_cycles + cycles, period);
    // DIV
    let q = t / 256;
    let r = t % 256;
    if r + cycles >= 256 {
        vstd::arithmetic::div_mod::lemma_fundamental_div_mod_converse(t2, 256, q + 1, r + cycles - 256);
        vstd::arithmetic::div_mod::lemma_add_mod_noop(q, 1, 256);
    } else {
        vstd::arithmetic::div_mod::lemma_fundamental_div_mod_converse(t2, 256, q, r + cycles);
    }
    // VBlank request
    let f0 = m.io[0x0F];
    let f1 = if irq.vblank { f0 | 0x01 } else { f0 };
    let f2 = if irq.stat { f1 | 0x02 } else { f1 };
    assert((f0 | 0x01) & 0x01 != 0 && ((f0 | 0x01) | 0x02) & 0x01 != 0 && (f0 | 0x02) & 0x01
        == f0 & 0x01) by (bit_vector);
    assert((f2 & 0x01 != 0) == (f0 & 0x01 != 0 || irq.vblank));
    let line = 144 * 456;
    if t < line && t2 >= line {
        vstd::arithmetic::div_mod::lemma_fundamental_div_mod_converse(t2, 456, 144, t2 - line);
        assert(t / 456 < 144) by {
            vstd::arithmetic::div_mod::lemma_div_is_ordered(t, line - 1, 456);
            vstd::arithmetic::div_mod::lemma_fundamental_div_mod_converse(line - 1, 456, 143, 455);
        }
    } else if t2 < line {
        assert(t2 / 456 < 144) by {
            vstd::arithmetic::div_mod::lemma_div_is_ordered(t2, line - 1, 456);
            vstd::arithmetic::div_mod::lemma_fundamental_div_mod_converse(line - 1, 456, 143, 455);
        }
        vstd::arithmetic::div_mod::lemma_small_mod((t2 / 456) as nat, 154);
    }
}

/// From power-on, after ticks whose cycles sum to `T` (and no write to DIV,
/// IF or the PPU registers), DIV reads `T / 256` modulo 256, LY reads
/// `T / 456` modulo 154, and the VBlank request is set exactly when
/// `T >= 144 * 456`.
pub proof fn lemma_ticks_from_power_on(rom: Seq<u8>, cycles: Seq<u8>)
    ensures
        ({
            let m = bus_after_ticks(BusView::power_on(rom), cycles);
            let t = total_cycles(cycles);
            &&& m.timed(t)
            &&& m.read(0xFF04) as int == (t / 256) % 256
            &&& m.read(0xFF44) as int == (t / 456) % 154
            &&& (m.read(0xFF0F) & 0x01 != 0) == (t >= 144 * 456)
        }),
    decreases cycles.len(),
{
    let m0 = BusView::power_on(rom);
    if cycles.len() == 0 {
        assert(m0.io[0x0F] == 0u8);
        assert(0u8 & 0x01 == 0) by (bit_vector);
    } else {
        let rest = cycles.drop_last();
        lemma_ticks_from_power_on(rom, rest);
        lemma_bus_after_ticks_wf(m0, rest);
        crate::ppu::lemma_ticks_from_power_on(m0.ppu, rest);
        lemma_tick_keeps_time(bus_after_ticks(m0, rest), total_cycles(rest), cycles.last());
    }
}

/// Ticking keeps every storage area at its size.
pub proof fn lemma_bus_after_ticks_wf(m: BusView, cycles: Seq<u8>)
    requires
        m.wf(),
    ensures
        bus_after_ticks(m, cycles).wf(),
    decreases cycles.len(),
{
    if cycles.len() > 0 {
        lemma_bus_after_ticks_wf(m, cycles.drop_last());
        lemma_wf_preserved(bus_after_ticks(m, cycles.drop_last()), 0, 0, cycles.last());
    }
}

/// Ticking the bus ticks its PPU through the same cycle counts.
pub proof fn lemma_bus_ticks_drive_ppu(m: BusView, cycles: Seq<u8>)
    ensures
        bus_after_ticks(m, cycles).ppu == ppu_after_ticks(m.ppu, cycles),
    decreases cycles.len(),
{
    if cycles.len() > 0 {
        lemma_bus_ticks_drive_ppu(m, cycles.drop_last());
    }
}

/// The frame the bus shows: ticking from the start of a frame (LY 0,
/// position 0) through cycle counts summing to `T`, with no writes between
/// the ticks, leaves each visible line completed by then holding the picture
/// that VRAM, OAM and the LCD registers describe for it, and each other line
/// as it was; once VBlank is reached the whole frame is drawn.
pub proof fn lemma_bus_frame_drawn(m: BusView, cycles: Seq<u8>, line: int, x: int)
    requires
        m.wf(),
        m.ppu.ly == 0,
        m.ppu.scanline_cycles == 0,
        0 <= line < 144,
        0 <= x < 160,
    ensures
        bus_after_ticks(m, cycles).ppu.framebuffer[line * 160 + x] == if total_cycles(cycles) >= 456
            * (line + 1) {
            m.ppu.line_picture(line, x)
        } else {
            m.ppu.framebuffer[line * 160 + x]
        },
{
    lemma_bus_ticks_drive_ppu(m, cycles);
    crate::ppu::lemma_frame_drawn(m.ppu, cycles, line, x);
}

} // verus!

