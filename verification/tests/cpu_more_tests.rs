use gameboy::bus::Bus;
use gameboy::cpu::Cpu;
use gameboy::gameboy::GameBoy;

fn load(program: &[u8]) -> (Cpu, Bus) {
    let mut cpu = Cpu::new();
    let mut bus = Bus::new(vec![0; 0x8000]);
    cpu.pc = 0xC000;
    for (i, &byte) in program.iter().enumerate() {
        bus.write_byte(0xC000 + i as u16, byte);
    }
    (cpu, bus)
}

#[test]
fn power_on_registers() {
    let cpu = Cpu::new();
    assert_eq!(cpu.get_af(), 0x01B0);
    assert_eq!(cpu.get_bc(), 0x0013);
    assert_eq!(cpu.get_de(), 0x00D8);
    assert_eq!(cpu.get_hl(), 0x014D);
    assert_eq!(cpu.sp, 0xFFFE);
    assert_eq!(cpu.pc(), 0x0100);
}

#[test]
fn register_pairs_round_trip_and_af_masks_f() {
    let mut cpu = Cpu::new();
    cpu.set_bc(0xBEEF);
    assert_eq!((cpu.b, cpu.c), (0xBE, 0xEF));
    assert_eq!(cpu.get_bc(), 0xBEEF);
    cpu.set_af(0x12FF);
    assert_eq!(cpu.a, 0x12);
    assert_eq!(cpu.f, 0xF0);
    assert_eq!(cpu.get_af(), 0x12F0);
}

#[test]
fn flag_setters_touch_one_bit() {
    let mut cpu = Cpu::new();
    cpu.f = 0x00;
    cpu.set_zero_flag(true);
    cpu.set_carry_flag(true);
    assert_eq!(cpu.f, 0x90);
    cpu.set_subtract_flag(true);
    cpu.set_half_carry_flag(true);
    cpu.set_zero_flag(false);
    assert_eq!(cpu.f, 0x70);
    assert!(!cpu.get_zero_flag() && cpu.get_subtract_flag() && cpu.get_half_carry_flag() && cpu.get_carry_flag());
}

#[test]
fn sixteen_bit_loads_and_counters() {
    let (mut cpu, mut bus) = load(&[0x01, 0x34, 0x12, 0x0B, 0x11, 0x00, 0x00, 0x1B, 0x13, 0x21, 0xFF, 0xFF, 0x23, 0x31, 0x00, 0xD0]);
    assert_eq!(cpu.step(&mut bus), 12);
    assert_eq!(cpu.get_bc(), 0x1234);
    assert_eq!(cpu.step(&mut bus), 8);
    assert_eq!(cpu.get_bc(), 0x1233, "DEC BC");
    cpu.step(&mut bus);
    assert_eq!(cpu.get_de(), 0x0000);
    cpu.f = 0x00;
    cpu.step(&mut bus);
    assert_eq!(cpu.get_de(), 0xFFFF, "DEC DE wraps");
    assert_eq!(cpu.f, 0x00, "16-bit DEC sets no flags");
    cpu.step(&mut bus);
    assert_eq!(cpu.get_de(), 0x0000, "INC DE wraps");
    cpu.step(&mut bus);
    cpu.step(&mut bus);
    assert_eq!(cpu.get_hl(), 0x0000, "INC HL wraps");
    assert_eq!(cpu.step(&mut bus), 12);
    assert_eq!(cpu.sp, 0xD000);
    assert_eq!(cpu.pc(), 0xC010);
}

#[test]
fn loads_through_de_and_hl() {
    let (mut cpu, mut bus) = load(&[0x12, 0x2A, 0x78, 0x70, 0x7E]);
    cpu.set_de(0xC100);
    cpu.a = 0x3C;
    assert_eq!(cpu.step(&mut bus), 8);
    assert_eq!(bus.read_byte(0xC100), 0x3C, "LD (DE), A");
    cpu.set_hl(0xC100);
    cpu.a = 0;
    assert_eq!(cpu.step(&mut bus), 8);
    assert_eq!(cpu.a, 0x3C, "LD A, (HL+)");
    assert_eq!(cpu.get_hl(), 0xC101);
    cpu.b = 0x99;
    assert_eq!(cpu.step(&mut bus), 4);
    assert_eq!(cpu.a, 0x99, "LD A, B");
    assert_eq!(cpu.step(&mut bus), 8);
    assert_eq!(bus.read_byte(0xC101), 0x99, "LD (HL), B");
    cpu.a = 0;
    assert_eq!(cpu.step(&mut bus), 8);
    assert_eq!(cpu.a, 0x99, "LD A, (HL)");
}

#[test]
fn dec_hl_memory_and_dec_a() {
    let (mut cpu, mut bus) = load(&[0x35, 0x3D]);
    cpu.set_hl(0xC100);
    bus.write_byte(0xC100, 0x00);
    cpu.f = 0x00;
    assert_eq!(cpu.step(&mut bus), 12);
    assert_eq!(bus.read_byte(0xC100), 0xFF, "0x00 - 1 wraps");
    assert!(cpu.get_half_carry_flag() && cpu.get_subtract_flag() && !cpu.get_zero_flag());
    cpu.a = 0x01;
    assert_eq!(cpu.step(&mut bus), 4);
    assert_eq!(cpu.a, 0x00);
    assert!(cpu.get_zero_flag());
}

#[test]
fn conditional_jumps_decode_all_conditions() {
    // JR Z not taken, JR NC taken
    let (mut cpu, mut bus) = load(&[0x28, 0x10, 0x30, 0x02]);
    cpu.f = 0x00;
    assert_eq!(cpu.step(&mut bus), 8);
    assert_eq!(cpu.pc(), 0xC002);
    assert_eq!(cpu.step(&mut bus), 12);
    assert_eq!(cpu.pc(), 0xC006);
    // JP NZ taken, JP NC not taken with carry, JP C taken
    let (mut cpu, mut bus) = load(&[0xC2, 0x00, 0xC1]);
    cpu.f = 0x00;
    assert_eq!(cpu.step(&mut bus), 16);
    assert_eq!(cpu.pc(), 0xC100);
    let (mut cpu, mut bus) = load(&[0xD2, 0x00, 0xC1, 0xDA, 0x00, 0xC2]);
    cpu.f = 0x10;
    assert_eq!(cpu.step(&mut bus), 12);
    assert_eq!(cpu.pc(), 0xC003);
    assert_eq!(cpu.step(&mut bus), 16);
    assert_eq!(cpu.pc(), 0xC200);
}

#[test]
fn jp_and_jp_hl() {
    let (mut cpu, mut bus) = load(&[0xC3, 0x50, 0xC0]);
    bus.write_byte(0xC050, 0xE9);
    assert_eq!(cpu.step(&mut bus), 16);
    assert_eq!(cpu.pc(), 0xC050);
    cpu.set_hl(0x1234);
    assert_eq!(cpu.step(&mut bus), 4);
    assert_eq!(cpu.pc(), 0x1234);
}

#[test]
fn push_pop_pairs() {
    let (mut cpu, mut bus) = load(&[0xC5, 0xD5, 0xE5, 0xF5, 0xC1, 0xD1, 0xE1, 0xF1]);
    cpu.sp = 0xD000;
    cpu.set_bc(0x1111);
    cpu.set_de(0x2222);
    cpu.set_hl(0x3333);
    cpu.set_af(0x44F0);
    for _ in 0..4 {
        assert_eq!(cpu.step(&mut bus), 16);
    }
    assert_eq!(cpu.sp, 0xCFF8);
    assert_eq!(bus.read_word(0xCFF8), 0x44F0);
    assert_eq!(bus.read_word(0xCFFE), 0x1111);
    for _ in 0..4 {
        assert_eq!(cpu.step(&mut bus), 12);
    }
    // popped in reverse: BC gets AF's word, DE gets HL's, HL gets DE's, AF gets BC's
    assert_eq!(cpu.get_bc(), 0x44F0);
    assert_eq!(cpu.get_de(), 0x3333);
    assert_eq!(cpu.get_hl(), 0x2222);
    assert_eq!(cpu.get_af(), 0x1110);
    assert_eq!(cpu.sp, 0xD000);
}

#[test]
fn high_page_loads_and_stores() {
    let (mut cpu, mut bus) = load(&[0xE0, 0x80, 0xE2, 0xF0, 0x81, 0xEA, 0x00, 0xC2, 0xFA, 0x00, 0xC2]);
    cpu.a = 0x42;
    assert_eq!(cpu.step(&mut bus), 12);
    assert_eq!(bus.read_byte(0xFF80), 0x42, "LDH (n), A");
    cpu.c = 0x81;
    cpu.a = 0x24;
    assert_eq!(cpu.step(&mut bus), 8);
    assert_eq!(bus.read_byte(0xFF81), 0x24, "LD (C), A");
    cpu.a = 0;
    assert_eq!(cpu.step(&mut bus), 12);
    assert_eq!(cpu.a, 0x24, "LDH A, (n)");
    cpu.a = 0x66;
    assert_eq!(cpu.step(&mut bus), 16);
    assert_eq!(bus.read_byte(0xC200), 0x66, "LD (nn), A");
    cpu.a = 0;
    assert_eq!(cpu.step(&mut bus), 16);
    assert_eq!(cpu.a, 0x66, "LD A, (nn)");
}

#[test]
fn or_xor_through_registers_and_res_0_a() {
    let (mut cpu, mut bus) = load(&[0xB0, 0xA9, 0xCB, 0x87]);
    cpu.a = 0x00;
    cpu.b = 0x00;
    cpu.f = 0xF0;
    assert_eq!(cpu.step(&mut bus), 4);
    assert_eq!(cpu.f, 0x80, "OR B with zero result: only Z");
    cpu.a = 0x0F;
    cpu.c = 0xFF;
    cpu.step(&mut bus);
    assert_eq!(cpu.a, 0xF0, "XOR C");
    assert_eq!(cpu.f, 0x00);
    cpu.a = 0xFF;
    cpu.f = 0xB0;
    assert_eq!(cpu.step(&mut bus), 8);
    assert_eq!(cpu.a, 0xFE, "RES 0, A");
    assert_eq!(cpu.f, 0xB0, "RES sets no flags");
    assert_eq!(cpu.pc(), 0xC004);
}

#[test]
fn can_step_refuses_undefined_and_unmapped() {
    for op in [0xD3u8, 0xDB, 0xDD, 0xE3, 0xE4, 0xEB, 0xEC, 0xED, 0xF4, 0xFC, 0xFD] {
        let (cpu, bus) = load(&[op]);
        assert!(!cpu.can_step(&bus), "{:#04x} is undefined", op);
    }
    for op in [0x76u8, 0x88, 0x27, 0xD9] {
        let (cpu, bus) = load(&[op]);
        assert!(cpu.can_step(&bus), "{:#04x} is defined", op);
    }
    let (cpu, bus) = load(&[0xCB, 0x00]);
    assert!(cpu.can_step(&bus));
    let mut cpu = Cpu::new();
    let bus = Bus::new(vec![0x00; 0x100]);
    assert!(!cpu.can_step(&bus), "PC 0x0100 lies beyond a 256-byte image");
    cpu.pc = 0x00FF;
    assert!(cpu.can_step(&bus), "NOP at the last byte");
    let (mut cpu, bus) = load(&[0xFA, 0x00, 0x40]);
    assert!(cpu.can_step(&bus), "bank 1 is inside a 32 KiB image");
    cpu.pc = 0xC000;
    let short = {
        let mut b = Bus::new(vec![0; 0x4000]);
        b.write_byte(0xC000, 0xFA);
        b.write_byte(0xC001, 0x00);
        b.write_byte(0xC002, 0x40);
        b
    };
    assert!(!cpu.can_step(&short), "LD A, (0x4000) reads beyond a 16 KiB image");
    let (mut cpu, bus) = load(&[0x7E]);
    cpu.set_hl(0x7FFF);
    assert!(cpu.can_step(&bus));
}

#[test]
fn gameboy_steps_and_ticks_the_bus() {
    let mut gb = GameBoy::new(vec![0x00; 0x8000]);
    assert_eq!(gb.pc(), 0x0100);
    let mut total = 0;
    for _ in 0..64 {
        total += gb.step().unwrap();
    }
    assert_eq!(total, 256);
    assert_eq!(gb.pc(), 0x0140);
    assert_eq!(gb.bus.read_byte(0xFF04), 1, "256 cycles make one DIV step");
    gb.set_buttons(false, false, false, false, true, false, false, true);
    gb.bus.write_byte(0xFF00, 0x10);
    assert_eq!(gb.bus.read_byte(0xFF00), 0xD6, "A and Start held, seen through P1");
}

#[test]
fn gameboy_step_refuses_an_undefined_opcode() {
    let mut rom = vec![0x00; 0x8000];
    rom[0x100] = 0xD3;
    let mut gb = GameBoy::new(rom);
    assert_eq!(gb.step(), None);
    assert_eq!(gb.pc(), 0x0100);
}

#[test]
fn adc_sub_sbc() {
    let (mut cpu, mut bus) = load(&[0x88, 0x90, 0x98, 0xCE, 0x01, 0xD6, 0x10, 0xDE, 0x00]);
    cpu.a = 0x0F;
    cpu.b = 0x00;
    cpu.f = 0x10;
    assert_eq!(cpu.step(&mut bus), 4);
    assert_eq!(cpu.a, 0x10, "ADC adds the carry");
    assert!(cpu.get_half_carry_flag() && !cpu.get_carry_flag());
    cpu.a = 0x10;
    cpu.b = 0x01;
    cpu.step(&mut bus);
    assert_eq!(cpu.a, 0x0F, "SUB B");
    assert!(cpu.get_subtract_flag() && cpu.get_half_carry_flag() && !cpu.get_carry_flag());
    cpu.a = 0x00;
    cpu.b = 0x00;
    cpu.f = 0x10;
    cpu.step(&mut bus);
    assert_eq!(cpu.a, 0xFF, "SBC borrows the carry");
    assert!(cpu.get_carry_flag() && cpu.get_half_carry_flag() && !cpu.get_zero_flag());
    cpu.a = 0xFF;
    cpu.f = 0x00;
    assert_eq!(cpu.step(&mut bus), 8);
    assert_eq!(cpu.a, 0x00, "ADC n wraps");
    assert!(cpu.get_zero_flag() && cpu.get_carry_flag() && cpu.get_half_carry_flag());
    cpu.a = 0x10;
    cpu.step(&mut bus);
    assert_eq!(cpu.a, 0x00, "SUB n");
    assert!(cpu.get_zero_flag() && !cpu.get_carry_flag());
    cpu.a = 0x00;
    cpu.f = 0x10;
    cpu.step(&mut bus);
    assert_eq!(cpu.a, 0xFF, "SBC n");
}

#[test]
fn daa_after_addition_and_subtraction() {
    let (mut cpu, mut bus) = load(&[0x80, 0x27, 0x90, 0x27]);
    cpu.a = 0x19;
    cpu.b = 0x28;
    cpu.step(&mut bus);
    assert_eq!(cpu.a, 0x41);
    cpu.step(&mut bus);
    assert_eq!(cpu.a, 0x47, "19 + 28 = 47 in BCD");
    assert!(!cpu.get_carry_flag());
    cpu.b = 0x09;
    cpu.step(&mut bus);
    cpu.step(&mut bus);
    assert_eq!(cpu.a, 0x38, "47 - 09 = 38 in BCD");
    let (mut cpu, mut bus) = load(&[0xC6, 0x01, 0x27]);
    cpu.a = 0x99;
    cpu.step(&mut bus);
    cpu.step(&mut bus);
    assert_eq!(cpu.a, 0x00, "99 + 1 = 100 in BCD");
    assert!(cpu.get_carry_flag() && cpu.get_zero_flag());
}

#[test]
fn accumulator_rotates_and_flag_ops() {
    let (mut cpu, mut bus) = load(&[0x07, 0x0F, 0x1F, 0x2F, 0x37, 0x3F]);
    cpu.a = 0x81;
    cpu.f = 0x00;
    cpu.step(&mut bus);
    assert_eq!(cpu.a, 0x03, "RLCA");
    assert!(cpu.get_carry_flag());
    cpu.step(&mut bus);
    assert_eq!(cpu.a, 0x81, "RRCA");
    assert!(cpu.get_carry_flag());
    cpu.step(&mut bus);
    assert_eq!(cpu.a, 0xC0, "RRA pulls the carry into bit 7");
    assert!(cpu.get_carry_flag());
    cpu.step(&mut bus);
    assert_eq!(cpu.a, 0x3F, "CPL");
    assert!(cpu.get_subtract_flag() && cpu.get_half_carry_flag());
    cpu.f = 0x00;
    cpu.step(&mut bus);
    assert!(cpu.get_carry_flag(), "SCF");
    cpu.step(&mut bus);
    assert!(!cpu.get_carry_flag(), "CCF");
}

#[test]
fn cb_rotates_shifts_and_bits() {
    let (mut cpu, mut bus) = load(&[0xCB, 0x00, 0xCB, 0x08, 0xCB, 0x19, 0xCB, 0x2A, 0xCB, 0x33, 0xCB, 0x3C, 0xCB, 0x7E, 0xCB, 0xC6, 0xCB, 0x86, 0xCB, 0x06]);
    cpu.b = 0x80;
    cpu.f = 0x00;
    assert_eq!(cpu.step(&mut bus), 8);
    assert_eq!(cpu.b, 0x01, "RLC B");
    assert!(cpu.get_carry_flag());
    cpu.step(&mut bus);
    assert_eq!(cpu.b, 0x80, "RRC B");
    cpu.c = 0x01;
    cpu.f = 0x00;
    cpu.step(&mut bus);
    assert_eq!(cpu.c, 0x00, "RR C");
    assert!(cpu.get_carry_flag() && cpu.get_zero_flag());
    cpu.d = 0x81;
    cpu.step(&mut bus);
    assert_eq!(cpu.d, 0xC0, "SRA D keeps bit 7");
    cpu.e = 0xAB;
    cpu.step(&mut bus);
    assert_eq!(cpu.e, 0xBA, "SWAP E");
    assert!(!cpu.get_carry_flag());
    cpu.h = 0x01;
    cpu.step(&mut bus);
    assert_eq!(cpu.h, 0x00, "SRL H");
    assert!(cpu.get_carry_flag());
    cpu.set_hl(0xC100);
    bus.write_byte(0xC100, 0x00);
    assert_eq!(cpu.step(&mut bus), 12, "BIT 7, (HL)");
    assert!(cpu.get_zero_flag() && cpu.get_half_carry_flag());
    assert_eq!(cpu.step(&mut bus), 16, "SET 0, (HL)");
    assert_eq!(bus.read_byte(0xC100), 0x01);
    cpu.step(&mut bus);
    assert_eq!(bus.read_byte(0xC100), 0x00, "RES 0, (HL)");
    bus.write_byte(0xC100, 0x80);
    assert_eq!(cpu.step(&mut bus), 16, "RLC (HL)");
    assert_eq!(bus.read_byte(0xC100), 0x01);
}

#[test]
fn conditional_calls_and_returns() {
    let (mut cpu, mut bus) = load(&[0xC4, 0x00, 0xC1, 0xCC, 0x00, 0xC1]);
    bus.write_byte(0xC100, 0xC0); // RET NZ
    bus.write_byte(0xC101, 0xC8); // RET Z
    cpu.sp = 0xD000;
    cpu.f = 0x00;
    assert_eq!(cpu.step(&mut bus), 24, "CALL NZ taken");
    assert_eq!(cpu.pc(), 0xC100);
    assert_eq!(cpu.step(&mut bus), 20, "RET NZ taken");
    assert_eq!(cpu.pc(), 0xC003);
    assert_eq!(cpu.sp, 0xD000);
    assert_eq!(cpu.step(&mut bus), 12, "CALL Z not taken");
    assert_eq!(cpu.pc(), 0xC006);
    cpu.pc = 0xC101;
    assert_eq!(cpu.step(&mut bus), 8, "RET Z not taken");
    assert_eq!(cpu.pc(), 0xC102);
}

#[test]
fn stack_pointer_arithmetic() {
    let (mut cpu, mut bus) = load(&[0xE8, 0x01, 0xF8, 0xFF, 0xF9, 0x08, 0x00, 0xC2, 0x33, 0x3B]);
    cpu.sp = 0x00FF;
    assert_eq!(cpu.step(&mut bus), 16);
    assert_eq!(cpu.sp, 0x0100, "ADD SP, 1");
    assert!(cpu.get_half_carry_flag() && cpu.get_carry_flag() && !cpu.get_zero_flag());
    assert_eq!(cpu.step(&mut bus), 12);
    assert_eq!(cpu.get_hl(), 0x00FF, "LD HL, SP-1");
    assert_eq!(cpu.step(&mut bus), 8);
    assert_eq!(cpu.sp, 0x00FF, "LD SP, HL");
    assert_eq!(cpu.step(&mut bus), 20);
    assert_eq!(bus.read_word(0xC200), 0x00FF, "LD (nn), SP");
    cpu.step(&mut bus);
    assert_eq!(cpu.sp, 0x0100, "INC SP");
    cpu.step(&mut bus);
    assert_eq!(cpu.sp, 0x00FF, "DEC SP");
}

#[test]
fn loads_through_bc_and_hl_minus() {
    let (mut cpu, mut bus) = load(&[0x02, 0x0A, 0x32, 0x3A, 0x03, 0x18, 0x02, 0x00, 0x00, 0x10, 0x00]);
    cpu.set_bc(0xC100);
    cpu.a = 0x5A;
    cpu.step(&mut bus);
    assert_eq!(bus.read_byte(0xC100), 0x5A, "LD (BC), A");
    cpu.a = 0;
    cpu.step(&mut bus);
    assert_eq!(cpu.a, 0x5A, "LD A, (BC)");
    cpu.set_hl(0xC101);
    cpu.step(&mut bus);
    assert_eq!(bus.read_byte(0xC101), 0x5A, "LD (HL-), A");
    assert_eq!(cpu.get_hl(), 0xC100);
    cpu.a = 0;
    cpu.step(&mut bus);
    assert_eq!(cpu.a, 0x5A, "LD A, (HL-)");
    assert_eq!(cpu.get_hl(), 0xC0FF);
    cpu.step(&mut bus);
    assert_eq!(cpu.get_bc(), 0xC101, "INC BC");
    assert_eq!(cpu.step(&mut bus), 12, "JR e");
    assert_eq!(cpu.pc(), 0xC009);
    assert_eq!(cpu.step(&mut bus), 4, "STOP");
    assert_eq!(cpu.pc(), 0xC00B, "STOP skips its second byte");
}

#[test]
fn halt_idles_until_an_interrupt_is_pending() {
    let (mut cpu, mut bus) = load(&[0x76, 0x00]);
    assert_eq!(cpu.step(&mut bus), 4);
    assert!(cpu.halted);
    assert_eq!(cpu.step(&mut bus), 4);
    assert_eq!(cpu.pc(), 0xC001, "a halted CPU runs nothing");
    bus.write_byte(0xFFFF, 0x04);
    bus.write_byte(0xFF0F, 0x04);
    assert_eq!(cpu.handle_interrupts(&mut bus), 0, "IME off: nothing is serviced");
    assert!(!cpu.halted, "but HALT ends");
    assert_eq!(cpu.step(&mut bus), 4);
    assert_eq!(cpu.pc(), 0xC002);
}

#[test]
fn interrupts_are_dispatched_after_the_ei_delay() {
    let (mut cpu, mut bus) = load(&[0xFB, 0x00, 0x00]);
    cpu.sp = 0xD000;
    bus.write_byte(0xFFFF, 0x05);
    bus.write_byte(0xFF0F, 0x05);
    cpu.step(&mut bus); // EI
    assert!(!cpu.ime);
    assert_eq!(cpu.handle_interrupts(&mut bus), 0, "EI's effect is delayed");
    cpu.step(&mut bus); // NOP, IME now on
    assert!(cpu.ime);
    assert_eq!(cpu.handle_interrupts(&mut bus), 20);
    assert_eq!(cpu.pc(), 0x0040, "VBlank has priority");
    assert_eq!(bus.read_byte(0xFF0F), 0x04, "its request is cleared");
    assert!(!cpu.ime);
    assert_eq!(bus.read_word(cpu.sp), 0xC002, "the interrupted PC is pushed");
    let mut bus2 = Bus::new(vec![0; 0x8000]);
    bus2.write_byte(0xC100, 0xD9);
    let mut c2 = Cpu::new();
    c2.pc = 0xC100;
    c2.sp = 0xD000;
    bus2.write_word(0xD000, 0x1234);
    c2.step(&mut bus2);
    assert_eq!(c2.pc(), 0x1234, "RETI returns");
    assert!(c2.ime, "and enables interrupts at once");
    let (mut c3, mut b3) = load(&[0xFB, 0xF3]);
    c3.step(&mut b3);
    c3.step(&mut b3);
    assert!(!c3.ime && !c3.ime_pending, "DI right after EI keeps interrupts off");
}

#[test]
fn push_word_then_pop_word_round_trips() {
    let (mut cpu, mut bus) = load(&[]);
    cpu.sp = 0xDFFE;
    cpu.push_word(&mut bus, 0xBEEF);
    assert_eq!(cpu.sp, 0xDFFC);
    assert_eq!(bus.read_byte(0xDFFC), 0xEF);
    assert_eq!(bus.read_byte(0xDFFD), 0xBE);
    assert_eq!(cpu.pop_word(&mut bus), 0xBEEF);
    assert_eq!(cpu.sp, 0xDFFE);
}

#[test]
fn stack_pair_slots_round_trip() {
    let mut cpu = Cpu::new();
    for index in 0..3u8 {
        cpu.write_r16_stack(index, 0x1234 + index as u16);
        assert_eq!(cpu.read_r16_stack(index), 0x1234 + index as u16);
    }
    cpu.write_r16_stack(3, 0xABCD);
    assert_eq!(cpu.read_r16_stack(3), 0xABC0, "AF keeps only F's high nibble");
    assert_eq!(cpu.get_bc(), 0x1234);
    assert_eq!(cpu.get_de(), 0x1235);
    assert_eq!(cpu.get_hl(), 0x1236);
}

#[test]
fn interrupt_handler_returns_with_reti() {
    let mut rom = vec![0u8; 0x8000];
    rom[0x48] = 0xD9;
    let mut bus = Bus::new(rom);
    let mut cpu = Cpu::new();
    cpu.pc = 0xC123;
    cpu.sp = 0xD000;
    cpu.ime = true;
    bus.write_byte(0xFFFF, 0x02);
    bus.write_byte(0xFF0F, 0x02);
    assert_eq!(cpu.handle_interrupts(&mut bus), 20);
    assert_eq!(cpu.pc(), 0x0048, "STAT vector");
    assert_eq!(cpu.sp, 0xCFFE);
    assert!(!cpu.ime);
    assert_eq!(cpu.step(&mut bus), 16, "RETI");
    assert_eq!(cpu.pc(), 0xC123);
    assert_eq!(cpu.sp, 0xD000);
    assert!(cpu.ime);
}
