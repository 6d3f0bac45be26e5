use gameboy::bus::Bus;
use gameboy::gameboy::GameBoy;
use gameboy::ppu::Ppu;

const WHITE: u32 = 0xFFFFFF;
const LIGHT: u32 = 0xAAAAAA;
const DARK: u32 = 0x555555;
const BLACK: u32 = 0x000000;

fn run_lines(ppu: &mut Ppu, lines: u32) {
    for _ in 0..lines * 2 {
        ppu.tick(228);
    }
}

/// Tile 1 at 0x8010: row 0 is colour 1 across, the other rows colour 0.
fn ppu_with_tile_one(lcdc: u8) -> Ppu {
    let mut ppu = Ppu::new();
    ppu.write_vram(0x8010, 0xFF);
    ppu.write_vram(0x8011, 0x00);
    ppu.write_vram(0x9800, 1);
    ppu.write_register(0xFF47, 0xE4);
    ppu.write_register(0xFF40, lcdc);
    ppu
}

#[test]
fn background_line_is_drawn_when_the_scanline_completes() {
    let mut ppu = ppu_with_tile_one(0x91);
    ppu.tick(228);
    assert_eq!(ppu.framebuffer()[0], 0, "nothing drawn mid-line");
    ppu.tick(228);
    let fb = ppu.framebuffer();
    assert_eq!(fb.len(), 160 * 144);
    for x in 0..8 {
        assert_eq!(fb[x], LIGHT, "tile 1 row 0 through BGP");
    }
    assert_eq!(fb[8], WHITE, "tile 0 is colour 0");
    assert_eq!(fb[159], WHITE);
    assert_eq!(fb[160], 0, "line 1 not drawn yet");
    run_lines(&mut ppu, 1);
    assert_eq!(ppu.framebuffer()[160], WHITE, "tile 1 row 1 is colour 0");
}

#[test]
fn background_scrolls_with_scx_and_scy() {
    let mut ppu = ppu_with_tile_one(0x91);
    ppu.write_register(0xFF43, 4);
    run_lines(&mut ppu, 1);
    let fb = ppu.framebuffer();
    for x in 0..4 {
        assert_eq!(fb[x], LIGHT);
    }
    assert_eq!(fb[4], WHITE);

    // SCX wraps: with SCX 252 screen column 4 shows background column 0.
    let mut ppu = ppu_with_tile_one(0x91);
    ppu.write_register(0xFF43, 252);
    run_lines(&mut ppu, 1);
    assert_eq!(ppu.framebuffer()[3], WHITE);
    assert_eq!(ppu.framebuffer()[4], LIGHT);
    assert_eq!(ppu.framebuffer()[11], LIGHT);
    assert_eq!(ppu.framebuffer()[12], WHITE);

    let mut ppu = ppu_with_tile_one(0x91);
    ppu.write_register(0xFF42, 255);
    run_lines(&mut ppu, 2);
    // line 0 shows background row 255, line 1 shows row 0
    assert_eq!(ppu.framebuffer()[0], WHITE);
    assert_eq!(ppu.framebuffer()[160], LIGHT);
}

#[test]
fn signed_tile_data_addressing() {
    let mut ppu = Ppu::new();
    ppu.write_vram(0x9010, 0x00);
    ppu.write_vram(0x9011, 0xFF);
    ppu.write_vram(0x9800, 1);
    ppu.write_vram(0x9801, 0x80);
    // tile 0x80 lies at 0x8800 in both addressing modes
    ppu.write_vram(0x8800, 0xFF);
    ppu.write_vram(0x8801, 0xFF);
    ppu.write_register(0xFF47, 0xE4);
    ppu.write_register(0xFF40, 0x81);
    run_lines(&mut ppu, 1);
    assert_eq!(ppu.framebuffer()[0], DARK, "tile 1 from 0x9010, colour 2");
    assert_eq!(ppu.framebuffer()[8], BLACK, "tile 0x80 from 0x8800, colour 3");
}

#[test]
fn tile_map_select_uses_9c00() {
    let mut ppu = ppu_with_tile_one(0x99);
    run_lines(&mut ppu, 1);
    assert_eq!(ppu.framebuffer()[0], WHITE, "the 0x9C00 map holds tile 0");
}

#[test]
fn background_off_is_white() {
    let mut ppu = ppu_with_tile_one(0x90);
    ppu.write_register(0xFF47, 0xFF);
    run_lines(&mut ppu, 1);
    assert_eq!(ppu.framebuffer()[0], WHITE);
    assert_eq!(ppu.framebuffer()[100], WHITE);
}

/// Sprite 0 at the top-left corner using tile 2, whose row 0 is colour 3 in
/// column 0 only.
fn ppu_with_sprite(attr: u8) -> Ppu {
    let mut ppu = ppu_with_tile_one(0x93);
    ppu.write_vram(0x8020, 0x80);
    ppu.write_vram(0x8021, 0x80);
    ppu.write_oam(0xFE00, 16);
    ppu.write_oam(0xFE01, 8);
    ppu.write_oam(0xFE02, 2);
    ppu.write_oam(0xFE03, attr);
    ppu.write_register(0xFF48, 0xE4);
    ppu.write_register(0xFF49, 0x00);
    ppu
}

#[test]
fn sprites_draw_over_the_background() {
    let mut ppu = ppu_with_sprite(0x00);
    run_lines(&mut ppu, 1);
    let fb = ppu.framebuffer();
    assert_eq!(fb[0], BLACK, "opaque sprite pixel through OBP0");
    assert_eq!(fb[1], LIGHT, "colour 0 is transparent");
}

#[test]
fn sprites_off_leave_the_background() {
    let mut ppu = ppu_with_sprite(0x00);
    ppu.write_register(0xFF40, 0x91);
    run_lines(&mut ppu, 1);
    assert_eq!(ppu.framebuffer()[0], LIGHT);
}

#[test]
fn sprite_flips_and_palette_select() {
    let mut ppu = ppu_with_sprite(0x20);
    run_lines(&mut ppu, 1);
    assert_eq!(ppu.framebuffer()[0], LIGHT, "x flip moves the pixel");
    assert_eq!(ppu.framebuffer()[7], BLACK);

    let mut ppu = ppu_with_sprite(0x40);
    run_lines(&mut ppu, 8);
    assert_eq!(ppu.framebuffer()[0], LIGHT, "y flip: line 0 shows tile row 7, transparent");
    assert_eq!(ppu.framebuffer()[7 * 160], BLACK, "line 7 shows tile row 0");

    let mut ppu = ppu_with_sprite(0x10);
    run_lines(&mut ppu, 1);
    assert_eq!(ppu.framebuffer()[0], WHITE, "OBP1 maps colour 3 to white");
}

#[test]
fn first_sprite_in_oam_order_wins() {
    let mut ppu = ppu_with_sprite(0x00);
    // sprite 1 at the same place with tile 3, colour 2 in column 0
    ppu.write_vram(0x8031, 0x80);
    ppu.write_oam(0xFE04, 16);
    ppu.write_oam(0xFE05, 8);
    ppu.write_oam(0xFE06, 3);
    ppu.write_oam(0xFE07, 0);
    run_lines(&mut ppu, 1);
    assert_eq!(ppu.framebuffer()[0], BLACK);
    // once sprite 0 moves away, sprite 1 shows
    let mut ppu2 = ppu_with_sprite(0x00);
    ppu2.write_vram(0x8031, 0x80);
    ppu2.write_oam(0xFE00, 0);
    ppu2.write_oam(0xFE04, 16);
    ppu2.write_oam(0xFE05, 8);
    ppu2.write_oam(0xFE06, 3);
    run_lines(&mut ppu2, 1);
    assert_eq!(ppu2.framebuffer()[0], DARK);
}

#[test]
fn whole_frame_is_drawn_by_vblank() {
    let mut ppu = Ppu::new();
    ppu.write_register(0xFF47, 0x00);
    ppu.write_register(0xFF40, 0x91);
    run_lines(&mut ppu, 143);
    assert!(ppu.framebuffer()[..143 * 160].iter().all(|&p| p == WHITE));
    assert!(ppu.framebuffer()[143 * 160..].iter().all(|&p| p == 0));
    ppu.tick(228);
    let irq = ppu.tick(228);
    assert!(irq.vblank);
    assert!(ppu.framebuffer().iter().all(|&p| p == WHITE));
    // VBlank lines draw nothing
    ppu.write_register(0xFF47, 0xFF);
    run_lines(&mut ppu, 10);
    assert_eq!(ppu.read_register(0xFF44), 0);
    assert!(ppu.framebuffer().iter().all(|&p| p == WHITE));
}

#[test]
fn bus_and_gameboy_show_the_ppu_framebuffer() {
    let mut bus = Bus::new(vec![0; 0x8000]);
    bus.write_byte(0xFF47, 0x00);
    bus.write_byte(0xFF40, 0x91);
    bus.tick(228);
    bus.tick(228);
    assert_eq!(bus.framebuffer()[0], WHITE);
    assert_eq!(bus.framebuffer()[160], 0);

    let gb = GameBoy::new(vec![0; 0x8000]);
    assert_eq!(gb.framebuffer().len(), 160 * 144);
    assert!(gb.framebuffer().iter().all(|&p| p == 0));
}
