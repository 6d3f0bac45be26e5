use vstd::prelude::*;
use crate::bus::zeros;

verus! {

/// The interrupts a PPU tick asks the CPU to raise.
pub struct InterruptRequest {
    pub vblank: bool,
    pub stat: bool,
}

/// The abstract state of the PPU: VRAM, OAM, the LCD registers, the
/// position within the current scanline and the framebuffer (160 x 144 0RGB
/// pixels, line by line).
pub struct PpuView {
    pub vram: Seq<u8>,
    pub oam: Seq<u8>,
    pub lcdc: u8,
    pub stat: u8,
    pub scy: u8,
    pub scx: u8,
    pub ly: u8,
    pub lyc: u8,
    pub bgp: u8,
    pub obp0: u8,
    pub obp1: u8,
    pub wy: u8,
    pub wx: u8,
    pub scanline_cycles: u32,
    pub framebuffer: Seq<u32>,
}

impl PpuView {
    /// The PPU at power-on: memory, registers and framebuffer zero, at cycle 0
    /// of line 0.
    pub open spec fn power_on() -> PpuView {
        PpuView {
            vram: zeros(0x2000),
            oam: zeros(0xA0),
            lcdc: 0,
            stat: 0,
            scy: 0,
            scx: 0,
            ly: 0,
            lyc: 0,
            bgp: 0,
            obp0: 0,
            obp1: 0,
            wy: 0,
            wx: 0,
            scanline_cycles: 0,
            framebuffer: Seq::new(0x5A00, |i: int| 0u32),
        }
    }

    /// VRAM and OAM have their mapped sizes and the framebuffer holds one
    /// pixel per screen position.
    pub open spec fn wf(self) -> bool {
        &&& self.vram.len() == 0x2000
        &&& self.oam.len() == 0xA0
        &&& self.framebuffer.len() == 0x5A00
    }

    /// LY names one of the 154 lines and the position lies within a line.
    pub open spec fn in_frame(self) -> bool {
        self.ly <= 153 && self.scanline_cycles < 456
    }

    /// The register at `addr` (0xFF40..=0xFF4B); unmapped ones read 0xFF.
    pub open spec fn register(self, addr: u16) -> u8 {
        if addr == 0xFF40 {
            self.lcdc
        } else if addr == 0xFF41 {
            self.stat
        } else if addr == 0xFF42 {
            self.scy
        } else if addr == 0xFF43 {
            self.scx
        } else if addr == 0xFF44 {
            self.ly
        } else if addr == 0xFF45 {
            self.lyc
        } else if addr == 0xFF47 {
            self.bgp
        } else if addr == 0xFF48 {
            self.obp0
        } else if addr == 0xFF49 {
            self.obp1
        } else if addr == 0xFF4A {
            self.wy
        } else if addr == 0xFF4B {
            self.wx
        } else {
            0xFF
        }
    }

    /// The PPU after writing `value` to register `addr`; LY and unmapped
    /// registers ignore writes.
    pub open spec fn with_register(self, addr: u16, value: u8) -> PpuView {
        if addr == 0xFF40 {
            PpuView { lcdc: value, ..self }
        } else if addr == 0xFF41 {
            PpuView { stat: value, ..self }
        } else if addr == 0xFF42 {
            PpuView { scy: value, ..self }
        } else if addr == 0xFF43 {
            PpuView { scx: value, ..self }
        } else if addr == 0xFF45 {
            PpuView { lyc: value, ..self }
        } else if addr == 0xFF47 {
            PpuView { bgp: value, ..self }
        } else if addr == 0xFF48 {
            PpuView { obp0: value, ..self }
        } else if addr == 0xFF49 {
            PpuView { obp1: value, ..self }
        } else if addr == 0xFF4A {
            PpuView { wy: value, ..self }
        } else if addr == 0xFF4B {
            PpuView { wx: value, ..self }
        } else {
            self
        }
    }

    /// The LCD mode at the current position: 1 in VBlank (LY >= 144),
    /// otherwise 2 (OAM scan, cycles 0..=79), 3 (drawing, 80..=251) or 0 (HBlank).
    pub open spec fn mode(self) -> u8 {
        if self.ly >= 144 {
            1
        } else if self.scanline_cycles <= 79 {
            2
        } else if self.scanline_cycles <= 251 {
            3
        } else {
            0
        }
    }

    /// The PPU after `cycles` clock cycles, and the interrupts it requests.
    /// STAT's mode bits take the mode at the start of the tick; when the
    /// scanline completes, a visible line (LY < 144) is drawn into the
    /// framebuffer, LY advances (153 wraps to 0), VBlank is requested on
    /// entering line 144, and STAT bit 2 records LY == LYC, requesting the STAT
    /// interrupt when STAT bit 6 enables it.
    pub open spec fn tick(self, cycles: u8) -> (PpuView, InterruptRequest) {
        let stat = (self.stat & 0xFC) | self.mode();
        let s = self.scanline_cycles + cycles;
        if s >= 456 {
            let ly: u8 = if self.ly >= 153 { 0 } else { (self.ly + 1) as u8 };
            let coincident = ly == self.lyc;
            let new_stat = if coincident { stat | 0x04 } else { stat & 0xFB };
            let framebuffer = if self.ly < 144 { self.with_line_drawn() } else { self.framebuffer };
            (
                PpuView { stat: new_stat, ly, scanline_cycles: (s - 456) as u32, framebuffer, ..self },
                InterruptRequest { vblank: ly == 144, stat: coincident && (new_stat & 0x40) != 0 },
            )
        } else {
            (
                PpuView { stat, scanline_cycles: s as u32, ..self },
                InterruptRequest { vblank: false, stat: false },
            )
        }
    }
}

/// The colour number (0..=3) of pixel `col` (0 is the leftmost) of the tile
/// row whose two bytes start at VRAM offset `row`: bit 7 - `col` of the second
/// byte gives the high bit, the same bit of the first byte the low bit.
pub open spec fn tile_color_id(vram: Seq<u8>, row: int, col: int) -> u8 {
    let bit = (7 - col) as u8;
    (((vram[row + 1] >> bit) & 1) << 1) | ((vram[row] >> bit) & 1)
}

/// The shade (0 lightest ..= 3 darkest) that `palette` gives colour number `id`:
/// bits 2 * id and 2 * id + 1 of the palette.
pub open spec fn palette_shade(palette: u8, id: u8) -> u8 {
    (palette >> ((2 * id) as u8)) & 3
}

/// The 0RGB colour shown for a shade.
pub open spec fn shade_rgb(shade: u8) -> u32 {
    if shade == 0 {
        0xFFFFFF
    } else if shade == 1 {
        0xAAAAAA
    } else if shade == 2 {
        0x555555
    } else {
        0x000000
    }
}

impl PpuView {
    /// The VRAM offset of background tile number `tile`: from 0x8000 unsigned
    /// when LCDC bit 4 is set, otherwise from 0x9000 with the number read as
    /// signed, so that tiles 128..=255 lie at 0x8800..=0x8FFF either way.
    pub open spec fn bg_tile_data(self, tile: u8) -> int {
        if self.lcdc & 0x10 != 0 || tile >= 128 {
            tile * 16
        } else {
            0x1000 + tile * 16
        }
    }

    /// The background colour number at screen column `x` of line LY: the
    /// 256 x 256 background scrolled by SCX/SCY (wrapping), its tile map at
    /// 0x9C00 when LCDC bit 3 is set and at 0x9800 otherwise.
    pub open spec fn bg_color_id(self, x: int) -> u8 {
        let y = (self.ly + self.scy) % 256;
        let bx = (x + self.scx) % 256;
        let map: int = if self.lcdc & 0x08 != 0 { 0x1C00 } else { 0x1800 };
        let tile = self.vram[map + (y / 8) * 32 + bx / 8];
        tile_color_id(self.vram, self.bg_tile_data(tile) + (y % 8) * 2, bx % 8)
    }

    /// The shade that sprite `i` gives screen column `x` of line LY, when it
    /// covers that pixel with a colour number other than the transparent 0.
    /// OAM entry 4i..4i+3 holds the sprite's Y + 16, X + 8, tile number and
    /// attributes; sprites are 8 x 8 with tiles from 0x8000, attribute bits 6
    /// and 5 flip them vertically and horizontally, and bit 4 selects OBP1
    /// over OBP0.
    pub open spec fn sprite_shade(self, i: int, x: int) -> Option<u8> {
        let row = self.ly + 16 - self.oam[4 * i];
        let col = x + 8 - self.oam[4 * i + 1];
        let tile = self.oam[4 * i + 2];
        let attr = self.oam[4 * i + 3];
        if 0 <= row < 8 && 0 <= col < 8 {
            let r = if attr & 0x40 != 0 { 7 - row } else { row };
            let c = if attr & 0x20 != 0 { 7 - col } else { col };
            let id = tile_color_id(self.vram, tile * 16 + r * 2, c);
            if id == 0 {
                None
            } else {
                Some(palette_shade(if attr & 0x10 != 0 { self.obp1 } else { self.obp0 }, id))
            }
        } else {
            None
        }
    }

    /// The shade of the first sprite from OAM entry `i` on that is opaque at
    /// column `x` of line LY.
    pub open spec fn first_sprite_shade(self, i: int, x: int) -> Option<u8>
        decreases 40 - i,
    {
        if i < 0 || i >= 40 {
            None
        } else if self.sprite_shade(i, x) is Some {
            self.sprite_shade(i, x)
        } else {
            self.first_sprite_shade(i + 1, x)
        }
    }

    /// The colour of column `x` of line LY. With sprites on (LCDC bit 1) the
    /// first opaque sprite in OAM order is drawn over everything; elsewhere
    /// the background shows through BGP when it is on (LCDC bit 0) and the
    /// pixel is white when it is off.
    pub open spec fn pixel(self, x: int) -> u32 {
        let sprite = if self.lcdc & 0x02 != 0 { self.first_sprite_shade(0, x) } else { None };
        match sprite {
            Some(shade) => shade_rgb(shade),
            None => if self.lcdc & 0x01 != 0 {
                shade_rgb(palette_shade(self.bgp, self.bg_color_id(x)))
            } else {
                0xFFFFFF
            },
        }
    }

    /// The framebuffer with line LY drawn: its 160 pixels replaced, every
    /// other pixel kept.
    pub open spec fn with_line_drawn(self) -> Seq<u32> {
        let base = self.ly * 160;
        Seq::new(
            self.framebuffer.len(),
            |i: int| if base <= i < base + 160 { self.pixel(i - base) } else { self.framebuffer[i] },
        )
    }
}

/// The picture processing unit's memory, registers, scanline timing and
/// framebuffer.
pub struct Ppu {
    vram: [u8; 0x2000],
    oam: [u8; 0xA0],
    // Registers
    lcdc: u8,  // 0xFF40
    stat: u8,  // 0xFF41
    scy: u8,  // 0xFF42
    scx: u8,  // 0xFF43
    ly: u8,  // 0xFF44
    lyc: u8,  // 0xFF45
    bgp: u8,  // 0xFF47
    obp0: u8,  // 0xFF48
    obp1: u8,  // 0xFF49
    wy: u8,  // 0xFF4A
    wx: u8,  // 0xFF4B
    scanline_cycles: u32,
    framebuffer: [u32; 0x5A00],
}

impl View for Ppu {
    type V = PpuView;

    closed spec fn view(&self) -> PpuView {
        PpuView {
            vram: self.vram@,
            oam: self.oam@,
            lcdc: self.lcdc,
            stat: self.stat,
            scy: self.scy,
            scx: self.scx,
            ly: self.ly,
            lyc: self.lyc,
            bgp: self.bgp,
            obp0: self.obp0,
            obp1: self.obp1,
            wy: self.wy,
            wx: self.wx,
            scanline_cycles: self.scanline_cycles,
            framebuffer: self.framebuffer@,
        }
    }
}

proof fn lemma_clear_low_bits(x: u8)
    by (bit_vector)
    ensures
        x & !0x03u8 == x & 0xFC,
        x & !0x04u8 == x & 0xFB,
{
}

proof fn lemma_color_id_bits(hi: u8, lo: u8, bit: u8)
    by (bit_vector)
    ensures
        (((hi >> bit) & 1) << 1) | ((lo >> bit) & 1) <= 3,
{
}

proof fn lemma_two_bits(x: u8)
    by (bit_vector)
    ensures
        x & 3 <= 3,
{
}

/// The shade that `palette` gives colour number `id`.
fn shade_of(palette: u8, id: u8) -> (shade: u8)
    requires
        id <= 3,
    ensures
        shade == palette_shade(palette, id),
        shade <= 3,
{
    proof {
        lemma_two_bits(palette >> ((2 * id) as u8));
    }
    (palette >> (2 * id)) & 3
}

/// The 0RGB colour shown for a shade.
fn rgb(shade: u8) -> (color: u32)
    ensures
        color == shade_rgb(shade),
{
    if shade == 0 {
        0xFFFFFF
    } else if shade == 1 {
        0xAAAAAA
    } else if shade == 2 {
        0x555555
    } else {
        0x000000
    }
}

impl Ppu {
    /// The colour number of pixel `col` of the tile row at VRAM offset `row`.
    fn tile_color_id_at(&self, row: usize, col: u8) -> (id: u8)
        requires
            row + 1 < 0x2000,
            col < 8,
        ensures
            id == tile_color_id(self@.vram, row as int, col as int),
            id <= 3,
    {
        let bit: u8 = 7 - col;
        let lo = self.vram[row];
        let hi = self.vram[row + 1];
        proof {
            lemma_color_id_bits(hi, lo, bit);
        }
        (((hi >> bit) & 1) << 1) | ((lo >> bit) & 1)
    }

    /// The background colour number at column `x` of line LY.
    fn background_id(&self, x: u8) -> (id: u8)
        requires
            x < 160,
        ensures
            id == self@.bg_color_id(x as int),
            id <= 3,
    {
        let y: u16 = (self.ly as u16 + self.scy as u16) % 256;
        let bx: u16 = (x as u16 + self.scx as u16) % 256;
        let map: usize = if self.lcdc & 0x08 != 0 { 0x1C00 } else { 0x1800 };
        let tile = self.vram[map + (y as usize / 8) * 32 + bx as usize / 8];
        let data: usize = if self.lcdc & 0x10 != 0 || tile >= 128 {
            tile as usize * 16
        } else {
            0x1000 + tile as usize * 16
        };
        self.tile_color_id_at(data + (y as usize % 8) * 2, (bx % 8) as u8)
    }

    /// The shade sprite `i` gives column `x` of line LY, if it is opaque there.
    fn sprite_shade_at(&self, i: usize, x: u8) -> (shade: Option<u8>)
        requires
            i < 40,
            x < 160,
        ensures
            shade == self@.sprite_shade(i as int, x as int),
    {
        proof {
            use_type_invariant(self);
        }
        let sy = self.oam[4 * i];
        let sx = self.oam[4 * i + 1];
        let tile = self.oam[4 * i + 2];
        let attr = self.oam[4 * i + 3];
        let line: u16 = self.ly as u16 + 16;
        let column: u16 = x as u16 + 8;
        if line >= sy as u16 && line - (sy as u16) < 8 && column >= sx as u16 && column - (sx as u16) < 8 {
            let row: u8 = (line - sy as u16) as u8;
            let col: u8 = (column - sx as u16) as u8;
            let r: u8 = if attr & 0x40 != 0 { 7 - row } else { row };
            let c: u8 = if attr & 0x20 != 0 { 7 - col } else { col };
            let id = self.tile_color_id_at(tile as usize * 16 + r as usize * 2, c);
            if id == 0 {
                None
            } else {
                let palette = if attr & 0x10 != 0 { self.obp1 } else { self.obp0 };
                Some(shade_of(palette, id))
            }
        } else {
            None
        }
    }

    /// The shade of the first sprite in OAM order that is opaque at column `x`
    /// of line LY.
    fn sprite_layer(&self, x: u8) -> (shade: Option<u8>)
        requires
            x < 160,
        ensures
            shade == self@.first_sprite_shade(0, x as int),
    {
        let mut i: usize = 0;
        while i < 40
            invariant
                i <= 40,
                x < 160,
                self@.first_sprite_shade(0, x as int) == self@.first_sprite_shade(i as int, x as int),
            decreases 40 - i,
        {
            let shade = self.sprite_shade_at(i, x);
            if shade.is_some() {
                return shade;
            }
            i = i + 1;
        }
        None
    }

    /// The colour of column `x` of line LY.
    fn pixel_at(&self, x: u8) -> (color: u32)
        requires
            x < 160,
        ensures
            color == self@.pixel(x as int),
    {
        let sprite = if self.lcdc & 0x02 != 0 { self.sprite_layer(x) } else { None };
        match sprite {
            Some(shade) => rgb(shade),
            None => if self.lcdc & 0x01 != 0 {
                rgb(shade_of(self.bgp, self.background_id(x)))
            } else {
                0xFFFFFF
            },
        }
    }

    /// Draws line LY into the framebuffer.
    fn draw_line(&mut self)
        requires
            old(self)@.ly < 144,
        ensures
            final(self)@ == (PpuView { framebuffer: old(self)@.with_line_drawn(), ..old(self)@ }),
    {
        let ghost before = self@;
        let mut line: Vec<u32> = Vec::new();
        let mut x: u8 = 0;
        while x < 160
            invariant
                x <= 160,
                self@ == before,
                line@.len() == x,
                forall|j: int| 0 <= j < x ==> #[trigger] line@[j] == before.pixel(j),
            decreases 160 - x,
        {
            let color = self.pixel_at(x);
            line.push(color);
            x = x + 1;
        }
        proof {
            use_type_invariant(&*self);
        }
        let base: usize = self.ly as usize * 160;
        let mut k: usize = 0;
        while k < 160
            invariant
                k <= 160,
                base == before.ly * 160,
                before.ly < 144,
                before.in_frame(),
                line@.len() == 160,
                forall|j: int| 0 <= j < 160 ==> #[trigger] line@[j] == before.pixel(j),
                self@ == (PpuView { framebuffer: self@.framebuffer, ..before }),
                self@.framebuffer.len() == 0x5A00,
                forall|i: int| 0 <= i < 0x5A00 ==> #[trigger] self@.framebuffer[i] == if base <= i < base + k {
                    before.pixel(i - base)
                } else {
                    before.framebuffer[i]
                },
            decreases 160 - k,
        {
            self.framebuffer[base + k] = line[k];
            k = k + 1;
        }
        assert(self@.framebuffer =~= before.with_line_drawn());
    }

    /// LY stays within 0..=153 and the scanline position within a line.
    #[verifier::type_invariant]
    spec fn timing_in_range(self) -> bool {
        &&& self.ly <= 153
        &&& self.scanline_cycles < 456
    }

    pub fn new() -> (ppu: Self)
        ensures
            ppu@ == PpuView::power_on(),
    {
        let ppu = Ppu {
            vram: [0; 0x2000],
            oam: [0; 0xA0],
            lcdc: 0,
            stat: 0,
            scy: 0,
            scx: 0,
            ly: 0,
            lyc: 0,
            bgp: 0,
            obp0: 0,
            obp1: 0,
            wy: 0,
            wx: 0,
            scanline_cycles: 0,
            framebuffer: [0; 0x5A00],
        };
        assert(ppu.vram@ =~= zeros(0x2000));
        assert(ppu.oam@ =~= zeros(0xA0));
        assert(ppu.framebuffer@ =~= Seq::new(0x5A00, |i: int| 0u32));
        ppu
    }

    pub fn read_vram(&self, addr: u16) -> (r: u8)
        requires
            0x8000 <= addr <= 0x9FFF,
        ensures
            r == self@.vram[addr - 0x8000],
            self@.in_frame(),
    {
        proof {
            use_type_invariant(self);
        }
        self.vram[(addr - 0x8000) as usize]
    }

    pub fn write_vram(&mut self, addr: u16, value: u8)
        requires
            0x8000 <= addr <= 0x9FFF,
        ensures
            final(self)@ == (PpuView { vram: old(self)@.vram.update(addr - 0x8000, value), ..old(self)@ }),
            final(self)@.in_frame(),
    {
        proof {
            use_type_invariant(&*self);
        }
        self.vram[(addr - 0x8000) as usize] = value;
    }

    pub fn read_oam(&self, addr: u16) -> (r: u8)
        requires
            0xFE00 <= addr <= 0xFE9F,
        ensures
            r == self@.oam[addr - 0xFE00],
            self@.in_frame(),
    {
        proof {
            use_type_invariant(self);
        }
        self.oam[(addr - 0xFE00) as usize]
    }

    pub fn write_oam(&mut self, addr: u16, value: u8)
        requires
            0xFE00 <= addr <= 0xFE9F,
        ensures
            final(self)@ == (PpuView { oam: old(self)@.oam.update(addr - 0xFE00, value), ..old(self)@ }),
            final(self)@.in_frame(),
    {
        proof {
            use_type_invariant(&*self);
        }
        self.oam[(addr - 0xFE00) as usize] = value;
    }

    pub fn read_register(&self, addr: u16) -> (r: u8)
        ensures
            r == self@.register(addr),
            self@.in_frame(),
    {
        proof {
            use_type_invariant(self);
        }
        if addr == 0xFF40 {
            self.lcdc
        } else if addr == 0xFF41 {
            self.stat
        } else if addr == 0xFF42 {
            self.scy
        } else if addr == 0xFF43 {
            self.scx
        } else if addr == 0xFF44 {
            self.ly
        } else if addr == 0xFF45 {
            self.lyc
        } else if addr == 0xFF47 {
            self.bgp
        } else if addr == 0xFF48 {
            self.obp0
        } else if addr == 0xFF49 {
            self.obp1
        } else if addr == 0xFF4A {
            self.wy
        } else if addr == 0xFF4B {
            self.wx
        } else {
            0xFF  // unmapped PPU register
        }
    }

    pub fn write_register(&mut self, addr: u16, value: u8)
        ensures
            final(self)@ == old(self)@.with_register(addr, value),
            final(self)@.in_frame(),
    {
        proof {
            use_type_invariant(&*self);
        }
        if addr == 0xFF40 {
            self.lcdc = value;
        } else if addr == 0xFF41 {
            self.stat = value;
        } else if addr == 0xFF42 {
            self.scy = value;
        } else if addr == 0xFF43 {
            self.scx = value;
        } else if addr == 0xFF44 {
            // LY is read-only -- writes ignored
        } else if addr == 0xFF45 {
            self.lyc = value;
        } else if addr == 0xFF47 {
            self.bgp = value;
        } else if addr == 0xFF48 {
            self.obp0 = value;
        } else if addr == 0xFF49 {
            self.obp1 = value;
        } else if addr == 0xFF4A {
            self.wy = value;
        } else if addr == 0xFF4B {
            self.wx = value;
        }
    }

    /// The framebuffer: 160 x 144 0RGB pixels, line by line.
    pub fn framebuffer(&self) -> (pixels: &[u32])
        ensures
            pixels@ == self@.framebuffer,
            self@.in_frame(),
    {
        proof {
            use_type_invariant(self);
        }
        self.framebuffer.as_slice()
    }

    pub fn tick(&mut self, cycles: u8) -> (interrupts: InterruptRequest)
        ensures
            (final(self)@, interrupts) == old(self)@.tick(cycles),
            final(self)@.in_frame(),
    {
        proof {
            use_type_invariant(&*self);
        }
        let mut interrupts = InterruptRequest { vblank: false, stat: false };

        // Each visible line is drawn as the scanline completes, before LY advances.
        if self.ly < 144 && self.scanline_cycles + cycles as u32 >= 456 {
            self.draw_line();
        }

        // Mode in STAT's low 2 bits (computed from current LY + cycle position)
        let mode: u8 = if self.ly >= 144 {
            1  // VBlank
        } else if self.scanline_cycles <= 79 {
            2
        } else if self.scanline_cycles <= 251 {
            3
        } else {
            0
        };
        proof {
            lemma_clear_low_bits(self.stat);
        }
        self.stat = (self.stat & !0x03) | mode;

        let mut scanline_cycles = self.scanline_cycles + cycles as u32;

        if scanline_cycles >= 456 {
            scanline_cycles -= 456;
            self.ly = if self.ly >= 153 { 0 } else { self.ly + 1 };

            if self.ly == 144 {
                interrupts.vblank = true;
            }

            // LY == LYC coincidence
            proof {
                lemma_clear_low_bits(self.stat);
            }
            if self.ly == self.lyc {
                self.stat = self.stat | 0x04;
                if self.stat & 0x40 != 0 {
                    interrupts.stat = true;
                }
            } else {
                self.stat = self.stat & !0x04;
            }
        }
        self.scanline_cycles = scanline_cycles;
        proof {
            use_type_invariant(&*self);
        }
        interrupts
    }
}

} // verus!

verus! {

/// LY is read-only: writing it leaves the PPU unchanged.
pub proof fn lemma_ly_read_only(v: PpuView, value: u8)
    ensures
        v.with_register(0xFF44, value) == v,
{
}

/// Every writable LCD register reads back the last value written to it, and
/// a register write changes no other register.
pub proof fn lemma_register_round_trip(v: PpuView, addr: u16, other: u16, value: u8)
    requires
        0xFF40 <= addr <= 0xFF4B,
        addr != 0xFF44,
        addr != 0xFF46,
        other != addr,
    ensures
        v.with_register(addr, value).register(addr) == value,
        v.with_register(addr, value).register(other) == v.register(other),
{
}

/// A tick that completes a scanline moves LY to the next line (153 wraps to
/// 0), records LY == LYC in STAT bit 2 and the mode in STAT bits 0-1,
/// requests VBlank exactly on entering line 144, and requests the STAT
/// interrupt only on a coincidence that STAT bit 6 enables. A tick inside a
/// scanline leaves LY alone and requests nothing.
pub proof fn lemma_tick_scanline(v: PpuView, cycles: u8)
    requires
        v.ly <= 153,
    ensures
        ({
            let (t, irq) = v.tick(cycles);
            &&& t.ly <= 153
            &&& t.stat & 0x03 == v.mode()
            &&& t.stat & 0xF8 == v.stat & 0xF8
            &&& if v.scanline_cycles + cycles >= 456 {
                &&& t.ly == (if v.ly == 153 { 0 } else { v.ly + 1 })
                &&& (t.stat & 0x04 != 0) == (t.ly == t.lyc)
                &&& irq.vblank == (t.ly == 144)
                &&& irq.stat == (t.ly == t.lyc && v.stat & 0x40 != 0)
            } else {
                &&& t.ly == v.ly
                &&& !irq.vblank
                &&& !irq.stat
            }
        }),
{
    let s = v.stat;
    let m = v.mode();
    assert(m <= 3);
    assert(((s & 0xFC) | m) & 0x03 == m && ((s & 0xFC) | m) & 0xF8 == s & 0xF8) by (bit_vector)
        requires m <= 3;
    let st = (s & 0xFC) | m;
    assert((st | 0x04) & 0x04 != 0 && (st & 0xFB) & 0x04 == 0) by (bit_vector);
    assert((st | 0x04) & 0x03 == st & 0x03 && (st & 0xFB) & 0x03 == st & 0x03) by (bit_vector);
    assert((st | 0x04) & 0xF8 == st & 0xF8 && (st & 0xFB) & 0xF8 == st & 0xF8) by (bit_vector);
    assert((st | 0x04) & 0x40 == st & 0x40 && st & 0x40 == s & 0x40) by (bit_vector)
        requires st == (s & 0xFC) | m, m <= 3;
}

} // verus!

verus! {

/// VRAM and OAM read back the last byte written to an address, and a write
/// changes no other address of either, nor any register.
pub proof fn lemma_memory_round_trip(v: PpuView, addr: u16, other: u16, value: u8)
    requires
        v.wf(),
        0x8000 <= addr <= 0x9FFF || 0xFE00 <= addr <= 0xFE9F,
        0x8000 <= other <= 0x9FFF || 0xFE00 <= other <= 0xFE9F,
        other != addr,
    ensures
        ({
            let w = if addr <= 0x9FFF {
                PpuView { vram: v.vram.update(addr - 0x8000, value), ..v }
            } else {
                PpuView { oam: v.oam.update(addr - 0xFE00, value), ..v }
            };
            &&& w.wf()
            &&& addr <= 0x9FFF ==> w.vram[addr - 0x8000] == value
            &&& addr >= 0xFE00 ==> w.oam[addr - 0xFE00] == value
            &&& other <= 0x9FFF ==> w.vram[other - 0x8000] == v.vram[other - 0x8000]
            &&& other >= 0xFE00 ==> w.oam[other - 0xFE00] == v.oam[other - 0xFE00]
            &&& forall|r: u16| #[trigger] w.register(r) == v.register(r)
        }),
{
}

/// Every PPU's VRAM holds 0x2000 bytes, its OAM 0xA0 and its framebuffer
/// 160 x 144 pixels. (Its LY stays within 0..=153: `Ppu::new` starts at line
/// 0 and every public method of `Ppu` ensures `in_frame`.)
pub proof fn lemma_ppu_view_sizes(ppu: Ppu)
    ensures
        ppu@.wf(),
{
}

impl PpuView {
    /// The PPU's scanline timing is `t` cycles after power-on: LY is the line
    /// `t / 456` (modulo the 154 lines of a frame) and the position within it
    /// is `t % 456`.
    pub open spec fn at_dot(self, t: int) -> bool {
        &&& self.ly as int == (t / 456) % 154
        &&& self.scanline_cycles as int == t % 456
    }

    /// The mode of the position `t` cycles after power-on.
    pub open spec fn mode_at(t: int) -> u8 {
        let line = (t / 456) % 154;
        let dot = t % 456;
        if line >= 144 {
            1
        } else if dot < 80 {
            2
        } else if dot < 252 {
            3
        } else {
            0
        }
    }
}

/// The PPU after ticking through `cycles`, one tick per entry, in order.
pub open spec fn ppu_after_ticks(v: PpuView, cycles: Seq<u8>) -> PpuView
    decreases cycles.len(),
{
    if cycles.len() == 0 {
        v
    } else {
        ppu_after_ticks(v, cycles.drop_last()).tick(cycles.last()).0
    }
}

/// The total of a sequence of cycle counts.
pub open spec fn total_cycles(cycles: Seq<u8>) -> int
    decreases cycles.len(),
{
    if cycles.len() == 0 {
        0
    } else {
        total_cycles(cycles.drop_last()) + cycles.last()
    }
}

/// The PPU starts at cycle 0 of line 0.
pub proof fn lemma_power_on_at_dot_zero(v: PpuView)
    requires
        v.ly == 0,
        v.scanline_cycles == 0,
    ensures
        v.at_dot(0),
{
}

/// Register writes (LY among them) never move the scanline timing.
pub proof fn lemma_write_keeps_dot(v: PpuView, addr: u16, value: u8, t: int)
    ensures
        v.with_register(addr, value).at_dot(t) == v.at_dot(t),
{
}

/// A tick moves the timing from cycle `t` to cycle `t + cycles`; STAT's mode
/// bits take the mode at cycle `t`; VBlank is requested exactly when the tick
/// enters line 144.
pub proof fn lemma_tick_advances_dot(v: PpuView, t: int, cycles: u8)
    requires
        t >= 0,
        v.at_dot(t),
    ensures
        v.tick(cycles).0.at_dot(t + cycles),
        v.tick(cycles).0.stat & 0x03 == PpuView::mode_at(t),
        v.tick(cycles).1.vblank == ((t + cycles) / 456 > t / 456 && ((t + cycles) / 456) % 154 == 144),
{
    let q = t / 456;
    let r = t % 456;
    let t2 = t + cycles;
    assert(t == 456 * q + r);
    if r + cycles >= 456 {
        assert(t2 == 456 * (q + 1) + (r + cycles - 456));
        vstd::arithmetic::div_mod::lemma_fundamental_div_mod_converse(t2, 456, q + 1, r + cycles - 456);
        assert(t2 / 456 == q + 1 && t2 % 456 == r + cycles - 456);
        vstd::arithmetic::div_mod::lemma_mod_add_multiples_vanish(q, 154);
        assert((q % 154 + 1) % 154 == (q + 1) % 154) by {
            vstd::arithmetic::div_mod::lemma_add_mod_noop(q, 1, 154);
        }
    } else {
        vstd::arithmetic::div_mod::lemma_fundamental_div_mod_converse(t2, 456, q, r + cycles);
    }
    lemma_tick_scanline(v, cycles);
}

/// A frame lasts 70224 cycles (154 lines of 456): the scanline timing at
/// cycle `t + 70224` is the timing at cycle `t`.
pub proof fn lemma_frame_length(v: PpuView, t: int)
    requires
        t >= 0,
    ensures
        v.at_dot(t + 70224) == v.at_dot(t),
        PpuView::mode_at(t + 70224) == PpuView::mode_at(t),
{
    let q = t / 456;
    let r = t % 456;
    vstd::arithmetic::div_mod::lemma_fundamental_div_mod(t, 456);
    vstd::arithmetic::div_mod::lemma_fundamental_div_mod_converse(t + 70224, 456, q + 154, r);
    vstd::arithmetic::div_mod::lemma_mod_add_multiples_vanish(q, 154);
}

/// Ticking from power-on through cycle counts summing to `T` leaves LY at
/// line `T / 456` (modulo 154) and the position at `T % 456`.
pub proof fn lemma_ticks_from_power_on(v: PpuView, cycles: Seq<u8>)
    requires
        v.ly == 0,
        v.scanline_cycles == 0,
    ensures
        ppu_after_ticks(v, cycles).at_dot(total_cycles(cycles)),
        total_cycles(cycles) >= 0,
    decreases cycles.len(),
{
    if cycles.len() > 0 {
        let rest = cycles.drop_last();
        lemma_ticks_from_power_on(v, rest);
        let w = ppu_after_ticks(v, rest);
        lemma_tick_advances_dot(w, total_cycles(rest), cycles.last());
    }
}

} // verus!

verus! {

/// A tick changes no LCD register but STAT and LY.
pub proof fn lemma_ppu_tick_registers(v: PpuView, cycles: u8, addr: u16)
    requires
        addr != 0xFF41,
        addr != 0xFF44,
    ensures
        v.tick(cycles).0.register(addr) == v.register(addr),
        v.tick(cycles).0.vram == v.vram,
        v.tick(cycles).0.oam == v.oam,
        v.tick(cycles).0.framebuffer.len() == v.framebuffer.len(),
{
}

} // verus!

verus! {

impl PpuView {
    /// Column `x` of the picture of line `line` that VRAM, OAM and the LCD
    /// registers describe.
    pub open spec fn line_picture(self, line: int, x: int) -> u32 {
        PpuView { ly: line as u8, ..self }.pixel(x)
    }
}

proof fn lemma_first_sprite_same(a: PpuView, b: PpuView, i: int, x: int)
    requires
        a.vram == b.vram,
        a.oam == b.oam,
        a.ly == b.ly,
        a.obp0 == b.obp0,
        a.obp1 == b.obp1,
    ensures
        a.first_sprite_shade(i, x) == b.first_sprite_shade(i, x),
    decreases 40 - i,
{
    if 0 <= i < 40 {
        lemma_first_sprite_same(a, b, i + 1, x);
    }
}

/// A pixel depends only on VRAM, OAM, LY and the LCD registers that select
/// tiles, scroll and palettes.
pub proof fn lemma_pixel_depends_on_picture_state(a: PpuView, b: PpuView, x: int)
    requires
        a.vram == b.vram,
        a.oam == b.oam,
        a.lcdc == b.lcdc,
        a.scy == b.scy,
        a.scx == b.scx,
        a.ly == b.ly,
        a.bgp == b.bgp,
        a.obp0 == b.obp0,
        a.obp1 == b.obp1,
    ensures
        a.pixel(x) == b.pixel(x),
{
    lemma_first_sprite_same(a, b, 0, x);
}

proof fn lemma_ticks_keep_picture_state(v: PpuView, cycles: Seq<u8>)
    ensures
        ppu_after_ticks(v, cycles).vram == v.vram,
        ppu_after_ticks(v, cycles).oam == v.oam,
        ppu_after_ticks(v, cycles).lcdc == v.lcdc,
        ppu_after_ticks(v, cycles).scy == v.scy,
        ppu_after_ticks(v, cycles).scx == v.scx,
        ppu_after_ticks(v, cycles).bgp == v.bgp,
        ppu_after_ticks(v, cycles).obp0 == v.obp0,
        ppu_after_ticks(v, cycles).obp1 == v.obp1,
        ppu_after_ticks(v, cycles).framebuffer.len() == v.framebuffer.len(),
    decreases cycles.len(),
{
    if cycles.len() > 0 {
        lemma_ticks_keep_picture_state(v, cycles.drop_last());
    }
}

/// Rendering is scanline based. Ticking from the start of a frame (LY 0,
/// position 0) through cycle counts summing to `T`, with no writes between
/// the ticks, leaves each visible line that has been completed
/// (`T >= 456 * (line + 1)`) holding the picture of that line, and each
/// other line as it was. So once LY reaches 144 (`T >= 144 * 456`) the whole
/// frame is in the framebuffer.
pub proof fn lemma_frame_drawn(v: PpuView, cycles: Seq<u8>, line: int, x: int)
    requires
        v.wf(),
        v.ly == 0,
        v.scanline_cycles == 0,
        0 <= line < 144,
        0 <= x < 160,
    ensures
        ppu_after_ticks(v, cycles).framebuffer[line * 160 + x] == if total_cycles(cycles) >= 456 * (
        line + 1) {
            v.line_picture(line, x)
        } else {
            v.framebuffer[line * 160 + x]
        },
    decreases cycles.len(),
{
    if cycles.len() > 0 {
        let rest = cycles.drop_last();
        let c = cycles.last();
        let w = ppu_after_ticks(v, rest);
        let t = total_cycles(rest);
        lemma_frame_drawn(v, rest, line, x);
        lemma_ticks_from_power_on(v, rest);
        lemma_ticks_keep_picture_state(v, rest);
        let q = t / 456;
        let r = t % 456;
        assert(t == 456 * q + r && 0 <= r < 456) by {
            vstd::arithmetic::div_mod::lemma_fundamental_div_mod(t, 456);
        }
        assert(w.ly as int == q % 154 && w.scanline_cycles as int == r);
        assert(t >= 456 * (line + 1) <==> q >= line + 1);
        let i = line * 160 + x;
        assert(0 <= i < 0x5A00) by (nonlinear_arith)
            requires
                0 <= line < 144,
                0 <= x < 160,
                i == line * 160 + x,
        ;
        if r + c >= 456 {
            assert(q % 154 <= q) by {
                vstd::arithmetic::div_mod::lemma_fundamental_div_mod(q, 154);
                assert(q / 154 >= 0) by {
                    vstd::arithmetic::div_mod::lemma_div_pos_is_pos(q, 154);
                }
                assert(154 * (q / 154) >= 0) by (nonlinear_arith)
                    requires q / 154 >= 0;
            }
            if w.ly as int == line {
                assert(w.ly * 160 <= i < w.ly * 160 + 160);
                lemma_pixel_depends_on_picture_state(w, PpuView { ly: line as u8, ..v }, x);
            } else {
                if q == line {
                    assert(q % 154 == line) by {
                        vstd::arithmetic::div_mod::lemma_small_mod(line as nat, 154);
                    }
                }
                if w.ly < 144 {
                    assert(!(w.ly * 160 <= i < w.ly * 160 + 160)) by (nonlinear_arith)
                        requires
                            w.ly != line,
                            i == line * 160 + x,
                            0 <= x < 160,
                    ;
                }
            }
        }
    }
}

/// The 0RGB colour of the shade `(palette >> 2 * id) & 3`: white, light
/// grey, dark grey, black.
pub open spec fn palette_color(palette: u8, id: int) -> u32 {
    let shade = (palette >> ((2 * id) as u8)) & 3;
    if shade == 0 {
        0xFFFFFF
    } else if shade == 1 {
        0xAAAAAA
    } else if shade == 2 {
        0x555555
    } else {
        0x000000
    }
}

/// The background goes through BGP: where the background is on (LCDC bit 0)
/// and no sprite is opaque, the pixel is the colour BGP gives the
/// background's colour number there, bits 2 * id and 2 * id + 1 of BGP
/// choosing white, light grey, dark grey or black. So two PPUs that differ
/// only in BGP show different pixels wherever their palettes map that colour
/// number differently. With the background off the pixel is white.
pub proof fn lemma_background_palette(v: PpuView, x: int)
    requires
        (v.lcdc & 0x02 == 0 || (v.first_sprite_shade(0, x) is None)),
    ensures
        v.lcdc & 0x01 != 0 ==> v.pixel(x) == palette_color(v.bgp, v.bg_color_id(x) as int),
        v.lcdc & 0x01 == 0 ==> v.pixel(x) == 0xFFFFFF,
        v.bg_color_id(x) <= 3,
        forall|bgp: u8|
            v.lcdc & 0x01 != 0 ==> #[trigger] (PpuView { bgp, ..v }).pixel(x) == palette_color(
                bgp,
                v.bg_color_id(x) as int,
            ),
{
    let id = v.bg_color_id(x);
    let y = (v.ly + v.scy) % 256;
    let bx = (x + v.scx) % 256;
    let map: int = if v.lcdc & 0x08 != 0 { 0x1C00 } else { 0x1800 };
    let tile = v.vram[map + (y / 8) * 32 + bx / 8];
    let row = v.bg_tile_data(tile) + (y % 8) * 2;
    let bit = (7 - bx % 8) as u8;
    let hi = v.vram[row + 1];
    let lo = v.vram[row];
    assert((((hi >> bit) & 1) << 1) | ((lo >> bit) & 1) <= 3) by (bit_vector);
    assert forall|bgp: u8| v.lcdc & 0x01 != 0 implies #[trigger] (PpuView { bgp, ..v }).pixel(x)
        == palette_color(bgp, id as int) by {
        let w = PpuView { bgp, ..v };
        lemma_first_sprite_same(v, w, 0, x);
    }
}

/// The background colour number at column `x` of line LY comes from the
/// scrolled position (x + SCX, LY + SCY, both modulo 256): the tile number is
/// read from the map (0x9C00 with LCDC bit 3, else 0x9800) at that tile row
/// and column, its data found at 0x8000 + 16 * tile with LCDC bit 4 and at
/// 0x9000 + 16 * (tile as signed) without; bit 7 - (column within the tile)
/// of the row's second byte is the high bit of the colour number, the same
/// bit of its first byte the low bit.
pub proof fn lemma_background_color_id(v: PpuView, x: int)
    requires
        v.wf(),
        0 <= x < 160,
    ensures
        ({
            let y = (v.ly + v.scy) % 256;
            let bx = (x + v.scx) % 256;
            let map_entry = (if v.lcdc & 0x08 != 0 { 0x9C00int } else { 0x9800int }) + 32 * (y
                / 8) + bx / 8;
            let tile = v.vram[map_entry - 0x8000];
            let signed_tile: int = if tile < 128 { tile as int } else { tile - 256 };
            let data = if v.lcdc & 0x10 != 0 { 0x8000 + 16 * tile } else { 0x9000 + 16 * signed_tile };
            let row = data + 2 * (y % 8) - 0x8000;
            let mask = 0x80u8 >> ((bx % 8) as u8);
            let id = v.bg_color_id(x);
            &&& 0 <= row && row + 1 < 0x2000
            &&& (id & 1 != 0) == (v.vram[row] & mask != 0)
            &&& (id & 2 != 0) == (v.vram[row + 1] & mask != 0)
            &&& id <= 3
        }),
{
    let y = (v.ly + v.scy) % 256;
    let bx = (x + v.scx) % 256;
    let tile = v.vram[(if v.lcdc & 0x08 != 0 { 0x1C00int } else { 0x1800int }) + (y / 8) * 32 + bx / 8];
    let row = v.bg_tile_data(tile) + (y % 8) * 2;
    let c = (bx % 8) as u8;
    let hi = v.vram[row + 1];
    let lo = v.vram[row];
    assert(c < 8 ==> {
        let bit = (7 - c) as u8;
        let id = (((hi >> bit) & 1) << 1) | ((lo >> bit) & 1);
        &&& (id & 1 != 0) == (lo & (0x80u8 >> c) != 0)
        &&& (id & 2 != 0) == (hi & (0x80u8 >> c) != 0)
        &&& id <= 3
    }) by (bit_vector);
}

/// The colour sprite `i` shows at column `x` of line LY, if any. Its OAM
/// entry holds Y + 16, X + 8, the tile number and the attributes; it covers
/// the pixel when LY is among its 8 lines and `x` among its 8 columns. The
/// tile row shown is the line within the sprite (counted from the bottom
/// with attribute bit 6), the column likewise (from the right with bit 5);
/// the colour number has the row's first byte as low bit and its second byte
/// as high bit at that column, 0 is transparent, and the colour comes through
/// OBP1 with attribute bit 4, else OBP0.
pub open spec fn sprite_hit(v: PpuView, i: int, x: int) -> Option<u32> {
    let row = v.ly as int + 16 - v.oam[4 * i];
    let col = x + 8 - v.oam[4 * i + 1];
    let attr = v.oam[4 * i + 3];
    if 0 <= row < 8 && 0 <= col < 8 {
        let line = if attr & 0x40 != 0 { 7 - row } else { row };
        let column = if attr & 0x20 != 0 { 7 - col } else { col };
        let addr = 16 * v.oam[4 * i + 2] + 2 * line;
        let mask = 0x80u8 >> (column as u8);
        let id = (if v.vram[addr] & mask != 0 { 1int } else { 0 }) + (if v.vram[addr + 1] & mask
            != 0 {
            2int
        } else {
            0
        });
        if id == 0 {
            None
        } else {
            Some(palette_color(if attr & 0x10 != 0 { v.obp1 } else { v.obp0 }, id))
        }
    } else {
        None
    }
}

proof fn lemma_sprite_hit_shade(v: PpuView, i: int, x: int)
    ensures
        (v.sprite_shade(i, x) is None) == (sprite_hit(v, i, x) is None),
        v.sprite_shade(i, x) is Some ==> sprite_hit(v, i, x) == Some(
            shade_rgb(v.sprite_shade(i, x).unwrap()),
        ),
{
    let row = v.ly as int + 16 - v.oam[4 * i];
    let col = x + 8 - v.oam[4 * i + 1];
    let attr = v.oam[4 * i + 3];
    if 0 <= row < 8 && 0 <= col < 8 {
        let line = if attr & 0x40 != 0 { 7 - row } else { row };
        let column = if attr & 0x20 != 0 { 7 - col } else { col };
        let addr = 16 * v.oam[4 * i + 2] + 2 * line;
        let lo = v.vram[addr];
        let hi = v.vram[addr + 1];
        let c = column as u8;
        assert(c < 8 ==> {
            let bit = (7 - c) as u8;
            let id = (((hi >> bit) & 1) << 1) | ((lo >> bit) & 1);
            id as int == (if lo & (0x80u8 >> c) != 0 { 1int } else { 0 }) + (if hi & (0x80u8
                >> c) != 0 {
                2int
            } else {
                0
            })
        }) by (bit_vector);
    }
}

proof fn lemma_first_sprite_skips(v: PpuView, j: int, i: int, x: int)
    requires
        0 <= j <= i <= 40,
        forall|k: int| j <= k < i ==> (#[trigger] sprite_hit(v, k, x)) is None,
    ensures
        v.first_sprite_shade(j, x) == v.first_sprite_shade(i, x),
    decreases i - j,
{
    if j < i {
        lemma_sprite_hit_shade(v, j, x);
        lemma_first_sprite_skips(v, j + 1, i, x);
    }
}

/// Sprites are drawn over the background, the first in OAM order winning:
/// with sprites on (LCDC bit 1), when sprite `i` shows a colour at column `x`
/// of line LY and no earlier sprite does, the pixel has that colour; when
/// none of the 40 sprites does, the pixel is the background's (white with
/// the background off).
pub proof fn lemma_sprites_on_top(v: PpuView, i: int, x: int)
    requires
        v.lcdc & 0x02 != 0,
        0 <= i <= 40,
        forall|k: int| 0 <= k < i ==> (#[trigger] sprite_hit(v, k, x)) is None,
    ensures
        i < 40 && (sprite_hit(v, i, x) is Some) ==> v.pixel(x) == sprite_hit(v, i, x).unwrap(),
        i == 40 && v.lcdc & 0x01 != 0 ==> v.pixel(x) == palette_color(
            v.bgp,
            v.bg_color_id(x) as int,
        ),
        i == 40 && v.lcdc & 0x01 == 0 ==> v.pixel(x) == 0xFFFFFF,
{
    lemma_first_sprite_skips(v, 0, i, x);
    if i < 40 {
        lemma_sprite_hit_shade(v, i, x);
    } else {
        lemma_background_palette(v, x);
    }
}

} // verus!
