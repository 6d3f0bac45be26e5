use gameboy::bus::Bus;

fn rom_with_banks(banks: usize) -> Vec<u8> {
    let mut rom = vec![0u8; banks * 0x4000];
    for bank in 0..banks {
        rom[bank * 0x4000] = bank as u8;
        rom[bank * 0x4000 + 1] = 0xA0 + bank as u8;
    }
    rom
}

#[test]
fn ram_areas_read_back_what_was_written() {
    let mut bus = Bus::new(vec![0; 0x8000]);
    for &addr in &[0x8000u16, 0x9FFF, 0xA000, 0xBFFF, 0xC000, 0xDFFF, 0xFE00, 0xFE9F, 0xFF80, 0xFFFE, 0xFFFF, 0xFF40, 0xFF01] {
        bus.write_byte(addr, 0x5A);
        assert_eq!(bus.read_byte(addr), 0x5A, "address {:#06x}", addr);
    }
}

#[test]
fn echo_ram_mirrors_work_ram() {
    let mut bus = Bus::new(vec![0; 0x8000]);
    bus.write_byte(0xC123, 0x42);
    assert_eq!(bus.read_byte(0xE123), 0x42);
    bus.write_byte(0xFDFF, 0x17);
    assert_eq!(bus.read_byte(0xDDFF), 0x17);
}

#[test]
fn unusable_area_reads_ff_and_ignores_writes() {
    let mut bus = Bus::new(vec![0; 0x8000]);
    bus.write_byte(0xFEA0, 0x12);
    assert_eq!(bus.read_byte(0xFEA0), 0xFF);
    assert_eq!(bus.read_byte(0xFEFF), 0xFF);
}

#[test]
fn rom_is_read_only_and_banks_switch() {
    let mut bus = Bus::new(rom_with_banks(4));
    assert_eq!(bus.read_byte(0x0000), 0, "fixed bank 0");
    assert_eq!(bus.read_byte(0x4000), 1, "bank 1 is mapped at power-on");
    bus.write_byte(0x0000, 0x99);
    assert_eq!(bus.read_byte(0x0000), 0, "ROM ignores writes");
    bus.write_byte(0x2000, 0x03);
    assert_eq!(bus.read_byte(0x4000), 3, "bank 3 selected");
    assert_eq!(bus.read_byte(0x4001), 0xA3);
    bus.write_byte(0x2000, 0x00);
    assert_eq!(bus.read_byte(0x4000), 1, "bank 0 maps to bank 1");
    bus.write_byte(0x3FFF, 0x22);
    assert_eq!(bus.read_byte(0x4000), 2, "only the low five bits select the bank");
}

#[test]
fn can_read_follows_the_rom_size() {
    let mut bus = Bus::new(rom_with_banks(2));
    assert!(bus.can_read(0x3FFF));
    assert!(bus.can_read(0x7FFF));
    assert!(bus.can_read(0xC000));
    bus.write_byte(0x2000, 0x05);
    assert!(!bus.can_read(0x4000), "bank 5 lies beyond a two-bank image");
    let empty = Bus::new(Vec::new());
    assert!(!empty.can_read(0x0000));
    assert!(empty.can_read(0x8000));
}

#[test]
fn words_are_little_endian() {
    let mut bus = Bus::new(vec![0; 0x8000]);
    bus.write_word(0xC100, 0x1234);
    assert_eq!(bus.read_byte(0xC100), 0x34);
    assert_eq!(bus.read_byte(0xC101), 0x12);
    assert_eq!(bus.read_word(0xC100), 0x1234);
    bus.write_word(0xFFFF, 0xBEEF);
    assert_eq!(bus.read_byte(0xFFFF), 0xEF, "low byte in IE");
    assert_eq!(bus.read_byte(0x0000), 0x00, "high byte wraps to ROM and is dropped");
}

#[test]
fn div_write_resets() {
    let mut bus = Bus::new(vec![0; 0x8000]);
    for _ in 0..3 {
        bus.tick(200);
    }
    assert_eq!(bus.read_byte(0xFF04), 2, "600 cycles: two DIV increments");
    bus.write_byte(0xFF04, 0x77);
    assert_eq!(bus.read_byte(0xFF04), 0);
    bus.tick(255);
    assert_eq!(bus.read_byte(0xFF04), 0, "the accumulator was reset too");
    bus.tick(1);
    assert_eq!(bus.read_byte(0xFF04), 1);
}

#[test]
fn serial_transfer_queues_sb() {
    let mut bus = Bus::new(vec![0; 0x8000]);
    bus.write_byte(0xFF01, b'P');
    bus.write_byte(0xFF02, 0x81);
    assert_eq!(bus.read_byte(0xFF02), 0x01, "start bit reads back cleared");
    bus.write_byte(0xFF01, b'!');
    bus.write_byte(0xFF02, 0x01);
    assert_eq!(bus.take_serial(), vec![b'P'], "no transfer without bit 7");
    assert!(bus.take_serial().is_empty());
}

#[test]
fn ly_advances_every_456_cycles_and_requests_vblank() {
    let mut bus = Bus::new(vec![0; 0x8000]);
    bus.tick(200);
    bus.tick(200);
    assert_eq!(bus.read_byte(0xFF44), 0);
    bus.tick(56);
    assert_eq!(bus.read_byte(0xFF44), 1);
    bus.write_byte(0xFF44, 0x55);
    assert_eq!(bus.read_byte(0xFF44), 1, "LY ignores writes");
    for _ in 0..(143 * 4) {
        bus.tick(114);
    }
    assert_eq!(bus.read_byte(0xFF44), 144);
    assert_eq!(bus.read_byte(0xFF0F) & 0x01, 0x01, "VBlank requested at 144 * 456 cycles");
    for _ in 0..(10 * 4) {
        bus.tick(114);
    }
    assert_eq!(bus.read_byte(0xFF44), 0, "line 153 wraps to 0");
}

#[test]
fn vblank_is_not_requested_before_line_144() {
    let mut bus = Bus::new(vec![0; 0x8000]);
    for _ in 0..(144 * 4 - 1) {
        bus.tick(114);
    }
    assert_eq!(bus.read_byte(0xFF44), 143);
    assert_eq!(bus.read_byte(0xFF0F) & 0x01, 0);
    assert_eq!(bus.read_byte(0xFF04), ((143 * 456 + 342) / 256 % 256) as u8);
}

#[test]
fn ppu_registers_and_memory_are_routed() {
    let mut bus = Bus::new(vec![0; 0x8000]);
    bus.write_byte(0xFF42, 0x33);
    assert_eq!(bus.read_byte(0xFF42), 0x33, "SCY");
    assert_eq!(bus.read_byte(0xFF46), 0xFF, "DMA reads as an unmapped PPU register");
    bus.write_byte(0xFF45, 1);
    bus.write_byte(0xFF41, 0x40);
    bus.tick(228);
    bus.tick(228);
    assert_eq!(bus.read_byte(0xFF0F) & 0x02, 0x02, "STAT coincidence interrupt requested");
}

#[test]
fn p1_is_the_joypad() {
    let mut bus = Bus::new(vec![0; 0x8000]);
    assert_eq!(bus.read_byte(0xFF00), 0xCF);
    bus.set_buttons(true, false, false, false, false, false, false, true);
    bus.write_byte(0xFF00, 0x20);
    assert_eq!(bus.read_byte(0xFF00), 0xEE, "right held, D-pad selected");
    bus.write_byte(0xFF00, 0x10);
    assert_eq!(bus.read_byte(0xFF00), 0xD7, "start held, action selected");
}

#[test]
fn oam_dma_copies_a_page() {
    let mut bus = Bus::new(vec![0; 0x8000]);
    for k in 0..0xA0u16 {
        bus.write_byte(0xC000 + k, (k as u8) ^ 0x5A);
    }
    bus.write_byte(0xFF46, 0xC0);
    for k in 0..0xA0u16 {
        assert_eq!(bus.read_byte(0xFE00 + k), (k as u8) ^ 0x5A);
    }
    let mut short = Bus::new(vec![0x11; 0x100]);
    short.write_byte(0xFF46, 0x00);
    assert_eq!(short.read_byte(0xFE00), 0x11, "page 0 comes from ROM");
    short.write_byte(0xFF46, 0x40);
    assert_eq!(short.read_byte(0xFE00), 0xFF, "beyond the image reads 0xFF");
}

#[test]
fn tima_counts_at_the_selected_rate_and_reloads_on_overflow() {
    let mut bus = Bus::new(vec![0; 0x8000]);
    bus.write_byte(0xFF05, 0x00);
    bus.tick(64);
    assert_eq!(bus.read_byte(0xFF05), 0, "timer disabled");
    bus.write_byte(0xFF07, 0x05); // enabled, 16 cycles
    bus.tick(40);
    assert_eq!(bus.read_byte(0xFF05), 2, "40 cycles at 16: two increments");
    bus.tick(8);
    assert_eq!(bus.read_byte(0xFF05), 3, "the remainder carried over");
    bus.write_byte(0xFF05, 0xFF);
    bus.write_byte(0xFF06, 0xAB);
    bus.write_byte(0xFF0F, 0x01);
    bus.tick(16);
    assert_eq!(bus.read_byte(0xFF05), 0xAB, "overflow reloads from TMA");
    assert_eq!(bus.read_byte(0xFF0F), 0x05, "timer interrupt requested, VBlank request kept");
}

#[test]
fn tima_slow_rate() {
    let mut bus = Bus::new(vec![0; 0x8000]);
    bus.write_byte(0xFF07, 0x04); // enabled, 1024 cycles
    for _ in 0..4 {
        bus.tick(255);
    }
    assert_eq!(bus.read_byte(0xFF05), 0, "1020 cycles: no increment yet");
    bus.tick(4);
    assert_eq!(bus.read_byte(0xFF05), 1);
    bus.write_byte(0xFF07, 0x06); // 64 cycles
    bus.tick(128);
    assert_eq!(bus.read_byte(0xFF05), 3);
    bus.write_byte(0xFF07, 0x07); // 256 cycles
    bus.tick(255);
    bus.tick(1);
    assert_eq!(bus.read_byte(0xFF05), 4);
}
