use vstd::prelude::*;
use crate::bus::{Bus, BusView};

verus! {

pub const ZERO_FLAG: u8 = 0x80;
pub const SUBTRACT_FLAG: u8 = 0x40;
pub const HALF_CARRY_FLAG: u8 = 0x20;
pub const CARRY_FLAG: u8 = 0x10;

/// `f` with the bits of `mask` set when `on` and cleared otherwise.
pub open spec fn set_flag(f: u8, mask: u8, on: bool) -> u8 {
    if on {
        f | mask
    } else {
        f & !mask
    }
}

/// `f` with Z, N and H set to the given values (C and the low nibble kept).
pub open spec fn flags_znh(f: u8, z: bool, n: bool, h: bool) -> u8 {
    set_flag(set_flag(set_flag(f, ZERO_FLAG, z), SUBTRACT_FLAG, n), HALF_CARRY_FLAG, h)
}

/// `f` with all four flags set to the given values (the low nibble kept).
pub open spec fn flags_znhc(f: u8, z: bool, n: bool, h: bool, c: bool) -> u8 {
    set_flag(flags_znh(f, z, n, h), CARRY_FLAG, c)
}

/// `f` with N, H and C set to the given values (Z and the low nibble kept).
pub open spec fn flags_nhc(f: u8, n: bool, h: bool, c: bool) -> u8 {
    set_flag(set_flag(set_flag(f, SUBTRACT_FLAG, n), HALF_CARRY_FLAG, h), CARRY_FLAG, c)
}

/// The two's complement value of a byte (a relative jump or SP offset).
pub open spec fn signed_byte(b: u8) -> int {
    if b < 128 {
        b as int
    } else {
        b - 256
    }
}

/// `x + k` modulo 2^16.
pub open spec fn add16(x: u16, k: int) -> u16 {
    ((x + k) % 0x10000) as u16
}

/// `x + k` modulo 2^8.
pub open spec fn add8(x: u8, k: int) -> u8 {
    ((x + k) % 0x100) as u8
}

/// The opcodes with no instruction: 0xD3, 0xDB, 0xDD, 0xE3, 0xE4, 0xEB,
/// 0xEC, 0xED, 0xF4, 0xFC and 0xFD.
pub open spec fn undefined_opcode(op: u8) -> bool {
    ||| op == 0xD3 || op == 0xDB || op == 0xDD || op == 0xE3 || op == 0xE4 || op == 0xEB
    ||| op == 0xEC || op == 0xED || op == 0xF4 || op == 0xFC || op == 0xFD
}

/// The SM83 register file, with the interrupt master enable, the pending
/// enable that EI schedules, and the HALT state.
pub struct Cpu {
    pub a: u8,
    pub f: u8,
    pub b: u8,
    pub c: u8,
    pub d: u8,
    pub e: u8,
    pub h: u8,
    pub l: u8,
    pub sp: u16,
    pub pc: u16,
    pub ime: bool,
    pub ime_pending: bool,
    pub halted: bool,
}

// The meaning of the registers and of one instruction.
impl Cpu {
    /// The register state the DMG boot ROM hands over with.
    pub open spec fn post_boot() -> Cpu {
        Cpu {
            a: 0x01,
            f: 0xB0,
            b: 0x00,
            c: 0x13,
            d: 0x00,
            e: 0xD8,
            h: 0x01,
            l: 0x4D,
            sp: 0xFFFE,
            pc: 0x0100,
            ime: false,
            ime_pending: false,
            halted: false,
        }
    }

    pub open spec fn flag_z(self) -> bool {
        self.f & ZERO_FLAG != 0
    }

    pub open spec fn flag_n(self) -> bool {
        self.f & SUBTRACT_FLAG != 0
    }

    pub open spec fn flag_h(self) -> bool {
        self.f & HALF_CARRY_FLAG != 0
    }

    pub open spec fn flag_c(self) -> bool {
        self.f & CARRY_FLAG != 0
    }

    /// The carry flag as a number (what rotates and ADC/SBC take in).
    pub open spec fn carry_bit(self) -> int {
        if self.flag_c() {
            1
        } else {
            0
        }
    }

    pub open spec fn af(self) -> u16 {
        (self.a as int * 256 + self.f as int) as u16
    }

    pub open spec fn bc(self) -> u16 {
        (self.b as int * 256 + self.c as int) as u16
    }

    pub open spec fn de(self) -> u16 {
        (self.d as int * 256 + self.e as int) as u16
    }

    pub open spec fn hl(self) -> u16 {
        (self.h as int * 256 + self.l as int) as u16
    }

    /// AF loaded with `v`: the low nibble of F always reads zero.
    pub open spec fn with_af(self, v: u16) -> Cpu {
        Cpu { a: (v / 256) as u8, f: ((v % 256) as u8) & 0xF0, ..self }
    }

    pub open spec fn with_bc(self, v: u16) -> Cpu {
        Cpu { b: (v / 256) as u8, c: (v % 256) as u8, ..self }
    }

    pub open spec fn with_de(self, v: u16) -> Cpu {
        Cpu { d: (v / 256) as u8, e: (v % 256) as u8, ..self }
    }

    pub open spec fn with_hl(self, v: u16) -> Cpu {
        Cpu { h: (v / 256) as u8, l: (v % 256) as u8, ..self }
    }

    pub open spec fn with_pc(self, pc: u16) -> Cpu {
        Cpu { pc, ..self }
    }

    pub open spec fn with_a(self, a: u8) -> Cpu {
        Cpu { a, ..self }
    }

    pub open spec fn with_f(self, f: u8) -> Cpu {
        Cpu { f, ..self }
    }

    /// The 8-bit operand with encoding `i`: B C D E H L (HL) A.
    pub open spec fn reg8(self, mem: BusView, i: u8) -> u8 {
        if i == 0 {
            self.b
        } else if i == 1 {
            self.c
        } else if i == 2 {
            self.d
        } else if i == 3 {
            self.e
        } else if i == 4 {
            self.h
        } else if i == 5 {
            self.l
        } else if i == 6 {
            mem.read(self.hl())
        } else {
            self.a
        }
    }

    /// Stores `v` into the 8-bit operand with encoding `i` ((HL) is memory).
    pub open spec fn with_reg8(self, mem: BusView, i: u8, v: u8) -> (Cpu, BusView) {
        if i == 0 {
            (Cpu { b: v, ..self }, mem)
        } else if i == 1 {
            (Cpu { c: v, ..self }, mem)
        } else if i == 2 {
            (Cpu { d: v, ..self }, mem)
        } else if i == 3 {
            (Cpu { e: v, ..self }, mem)
        } else if i == 4 {
            (Cpu { h: v, ..self }, mem)
        } else if i == 5 {
            (Cpu { l: v, ..self }, mem)
        } else if i == 6 {
            (self, mem.write(self.hl(), v))
        } else {
            (Cpu { a: v, ..self }, mem)
        }
    }

    /// The register pair with encoding `p`: BC DE HL SP.
    pub open spec fn reg16(self, p: u8) -> u16 {
        if p == 0 {
            self.bc()
        } else if p == 1 {
            self.de()
        } else if p == 2 {
            self.hl()
        } else {
            self.sp
        }
    }

    pub open spec fn with_reg16(self, p: u8, v: u16) -> Cpu {
        if p == 0 {
            self.with_bc(v)
        } else if p == 1 {
            self.with_de(v)
        } else if p == 2 {
            self.with_hl(v)
        } else {
            Cpu { sp: v, ..self }
        }
    }

    /// The register pair with PUSH/POP encoding `i`: BC DE HL AF.
    pub open spec fn reg16_stack(self, i: u8) -> u16 {
        if i == 0 {
            self.bc()
        } else if i == 1 {
            self.de()
        } else if i == 2 {
            self.hl()
        } else {
            self.af()
        }
    }

    pub open spec fn with_reg16_stack(self, i: u8, v: u16) -> Cpu {
        if i == 0 {
            self.with_bc(v)
        } else if i == 1 {
            self.with_de(v)
        } else if i == 2 {
            self.with_hl(v)
        } else {
            self.with_af(v)
        }
    }

    /// The branch condition with encoding `cc`: NZ Z NC C.
    pub open spec fn condition(self, cc: u8) -> bool {
        if cc == 0 {
            !self.flag_z()
        } else if cc == 1 {
            self.flag_z()
        } else if cc == 2 {
            !self.flag_c()
        } else {
            self.flag_c()
        }
    }

    /// Reads the byte at PC and advances PC.
    pub open spec fn fetch8(self, mem: BusView) -> (Cpu, u8) {
        (self.with_pc(add16(self.pc, 1)), mem.read(self.pc))
    }

    /// Reads the little-endian word at PC and advances PC by two.
    pub open spec fn fetch16(self, mem: BusView) -> (Cpu, u16) {
        (self.with_pc(add16(self.pc, 2)), mem.read_word(self.pc))
    }

    /// Pushes `v`: SP drops by two and the word lands at the new SP.
    pub open spec fn push(self, mem: BusView, v: u16) -> (Cpu, BusView) {
        let sp = add16(self.sp, -2);
        (Cpu { sp, ..self }, mem.write_word(sp, v))
    }

    /// Pops the word at SP and raises SP by two.
    pub open spec fn pop(self, mem: BusView) -> (Cpu, u16) {
        (Cpu { sp: add16(self.sp, 2), ..self }, mem.read_word(self.sp))
    }

    /// INC on `v`: the result and the flags (Z, N cleared, H from the low
    /// nibble; C kept).
    pub open spec fn inc8(self, v: u8) -> (Cpu, u8) {
        let r = add8(v, 1);
        (self.with_f(flags_znh(self.f, r == 0, false, v % 16 == 15)), r)
    }

    /// DEC on `v`: the result and the flags (Z, N set, H on a low-nibble
    /// borrow; C kept).
    pub open spec fn dec8(self, v: u8) -> (Cpu, u8) {
        let r = add8(v, -1);
        (self.with_f(flags_znh(self.f, r == 0, true, v % 16 == 0)), r)
    }

    /// ADD A, v.
    pub open spec fn add_a(self, v: u8) -> Cpu {
        let sum = self.a + v;
        Cpu {
            a: (sum % 256) as u8,
            f: flags_znhc(self.f, sum % 256 == 0, false, self.a % 16 + v % 16 > 15, sum > 255),
            ..self
        }
    }

    /// ADC A, v: adds the carry too.
    pub open spec fn adc_a(self, v: u8) -> Cpu {
        let cy = self.carry_bit();
        let sum = self.a + v + cy;
        Cpu {
            a: (sum % 256) as u8,
            f: flags_znhc(self.f, sum % 256 == 0, false, self.a % 16 + v % 16 + cy > 15, sum > 255),
            ..self
        }
    }

    /// SUB v: H and C flag the borrows out of bit 4 and bit 8.
    pub open spec fn sub_a(self, v: u8) -> Cpu {
        let r = add8(self.a, -(v as int));
        Cpu {
            a: r,
            f: flags_znhc(self.f, r == 0, true, self.a % 16 < v % 16, self.a < v),
            ..self
        }
    }

    /// SBC A, v: subtracts the carry too.
    pub open spec fn sbc_a(self, v: u8) -> Cpu {
        let cy = self.carry_bit();
        let r = add8(self.a, -(v + cy));
        Cpu {
            a: r,
            f: flags_znhc(self.f, r == 0, true, self.a % 16 < v % 16 + cy, self.a < v + cy),
            ..self
        }
    }

    /// AND v (H is always set).
    pub open spec fn and_a(self, v: u8) -> Cpu {
        let r = self.a & v;
        Cpu { a: r, f: flags_znhc(self.f, r == 0, false, true, false), ..self }
    }

    /// OR v.
    pub open spec fn or_a(self, v: u8) -> Cpu {
        let r = self.a | v;
        Cpu { a: r, f: flags_znhc(self.f, r == 0, false, false, false), ..self }
    }

    /// XOR v.
    pub open spec fn xor_a(self, v: u8) -> Cpu {
        let r = self.a ^ v;
        Cpu { a: r, f: flags_znhc(self.f, r == 0, false, false, false), ..self }
    }

    /// CP v: the flags of A - v, A unchanged.
    pub open spec fn cp_a(self, v: u8) -> Cpu {
        Cpu { f: flags_znhc(self.f, self.a == v, true, self.a % 16 < v % 16, self.a < v), ..self }
    }

    /// The ALU operation with encoding `y`: ADD ADC SUB SBC AND XOR OR CP.
    pub open spec fn alu_result(self, y: u8, v: u8) -> Cpu {
        if y == 0 {
            self.add_a(v)
        } else if y == 1 {
            self.adc_a(v)
        } else if y == 2 {
            self.sub_a(v)
        } else if y == 3 {
            self.sbc_a(v)
        } else if y == 4 {
            self.and_a(v)
        } else if y == 5 {
            self.xor_a(v)
        } else if y == 6 {
            self.or_a(v)
        } else {
            self.cp_a(v)
        }
    }

    /// The rotate or shift with encoding `y` (RLC RRC RL RR SLA SRA SWAP SRL)
    /// applied to `v`: the result and the bit shifted out into the carry.
    pub open spec fn shifted(self, y: u8, v: u8) -> (u8, bool) {
        if y == 0 {
            (((v * 2) % 256 + v / 128) as u8, v >= 128)
        } else if y == 1 {
            ((v / 2 + (v % 2) * 128) as u8, v % 2 == 1)
        } else if y == 2 {
            (((v * 2) % 256 + self.carry_bit()) as u8, v >= 128)
        } else if y == 3 {
            ((v / 2 + self.carry_bit() * 128) as u8, v % 2 == 1)
        } else if y == 4 {
            (((v * 2) % 256) as u8, v >= 128)
        } else if y == 5 {
            ((v / 2 + (v / 128) * 128) as u8, v % 2 == 1)
        } else if y == 6 {
            (((v % 16) * 16 + v / 16) as u8, false)
        } else {
            ((v / 2) as u8, v % 2 == 1)
        }
    }

    /// The CB-prefixed rotate/shift: the result, with Z from it, N and H
    /// cleared and C the bit shifted out.
    pub open spec fn rotated(self, y: u8, v: u8) -> (Cpu, u8) {
        let (r, carry) = self.shifted(y, v);
        (self.with_f(flags_znhc(self.f, r == 0, false, false, carry)), r)
    }

    /// The accumulator rotates RLCA RRCA RLA RRA: as the CB forms, but Z is
    /// always cleared.
    pub open spec fn rotated_a(self, y: u8) -> Cpu {
        let (r, carry) = self.shifted(y, self.a);
        Cpu { a: r, f: flags_znhc(self.f, false, false, false, carry), ..self }
    }

    /// DAA: corrects A to packed BCD after an addition (N clear) or a
    /// subtraction (N set), using H and C; Z from the result, H cleared.
    pub open spec fn daa(self) -> Cpu {
        let a = self.a;
        if !self.flag_n() {
            let high = self.flag_c() || a > 0x99;
            let a1 = if high { add8(a, 0x60) } else { a };
            let a2 = if self.flag_h() || a % 16 > 9 { add8(a1, 0x06) } else { a1 };
            Cpu { a: a2, f: flags_znhc(self.f, a2 == 0, false, false, high), ..self }
        } else {
            let a1 = if self.flag_c() { add8(a, -0x60) } else { a };
            let a2 = if self.flag_h() { add8(a1, -0x06) } else { a1 };
            Cpu { a: a2, f: flags_znhc(self.f, a2 == 0, true, false, self.flag_c()), ..self }
        }
    }

    /// SP plus the signed byte `e`, with the flags of ADD SP, e and
    /// LD HL, SP+e: Z and N cleared, H and C from the unsigned low-byte add.
    pub open spec fn sp_offset(self, e: u8) -> (u16, u8) {
        (
            add16(self.sp, signed_byte(e)),
            flags_znhc(self.f, false, false, self.sp % 16 + e % 16 > 15, self.sp % 256 + e > 255),
        )
    }

    /// ADD HL, rr: H from bit 11, C from bit 15; Z is kept.
    pub open spec fn add_hl(self, v: u16) -> Cpu {
        let sum = self.hl() + v;
        self.with_f(flags_nhc(self.f, false, self.hl() % 4096 + v % 4096 > 4095, sum > 0xFFFF)).with_hl(
            (sum % 0x10000) as u16,
        )
    }

    /// JR cc, e after the opcode: the offset byte is consumed; a taken jump
    /// adds the signed offset to PC.
    pub open spec fn jr(self, mem: BusView, taken: bool) -> (Cpu, u8) {
        let (c, offset) = self.fetch8(mem);
        if taken {
            (c.with_pc(add16(c.pc, signed_byte(offset))), 12)
        } else {
            (c, 8)
        }
    }

    /// JP cc, nn after the opcode: the operand is consumed either way.
    pub open spec fn jp(self, mem: BusView, taken: bool) -> (Cpu, u8) {
        let (c, target) = self.fetch16(mem);
        if taken {
            (c.with_pc(target), 16)
        } else {
            (c, 12)
        }
    }

    /// CALL cc, nn after the opcode: the operand is consumed either way; a
    /// taken call pushes the return address and jumps.
    pub open spec fn call(self, mem: BusView, taken: bool) -> (Cpu, BusView, u8) {
        let (c, target) = self.fetch16(mem);
        if taken {
            let (c2, m2) = c.push(mem, c.pc);
            (c2.with_pc(target), m2, 24)
        } else {
            (c, mem, 12)
        }
    }

    /// Opcodes 0x00..=0x3F with `op % 8 == 0`: NOP, LD (nn), SP, STOP, JR, JR cc.
    pub open spec fn semantics_x0z0(self, op: u8, mem: BusView) -> (Cpu, BusView, u8) {
        let y = op / 8;
        if y == 0 {
            (self, mem, 4)
        } else if y == 1 {
            let (c, nn) = self.fetch16(mem);
            (c, mem.write_word(nn, self.sp), 20)
        } else if y == 2 {
            // STOP: its second byte is skipped
            (self.fetch8(mem).0, mem, 4)
        } else if y == 3 {
            let (c, cycles) = self.jr(mem, true);
            (c, mem, cycles)
        } else {
            let (c, cycles) = self.jr(mem, self.condition((y - 4) as u8));
            (c, mem, cycles)
        }
    }

    /// Opcodes 0x00..=0x3F with `op % 8 == 1`: LD rr, nn and ADD HL, rr.
    pub open spec fn semantics_x0z1(self, op: u8, mem: BusView) -> (Cpu, BusView, u8) {
        let p = op / 16;
        if (op / 8) % 2 == 0 {
            let (c, nn) = self.fetch16(mem);
            (c.with_reg16(p, nn), mem, 12)
        } else {
            (self.add_hl(self.reg16(p)), mem, 8)
        }
    }

    /// Opcodes 0x00..=0x3F with `op % 8 == 2`: loads between A and (BC),
    /// (DE), (HL+), (HL-).
    pub open spec fn semantics_x0z2(self, op: u8, mem: BusView) -> (Cpu, BusView, u8) {
        let p = op / 16;
        let addr = if p == 0 {
            self.bc()
        } else if p == 1 {
            self.de()
        } else {
            self.hl()
        };
        let c = if p == 2 {
            self.with_hl(add16(self.hl(), 1))
        } else if p == 3 {
            self.with_hl(add16(self.hl(), -1))
        } else {
            self
        };
        if (op / 8) % 2 == 0 {
            (c, mem.write(addr, self.a), 8)
        } else {
            (c.with_a(mem.read(addr)), mem, 8)
        }
    }

    /// Opcodes 0x00..=0x3F with `op % 8 == 3`: INC rr and DEC rr (no flags).
    pub open spec fn semantics_x0z3(self, op: u8, mem: BusView) -> (Cpu, BusView, u8) {
        let p = op / 16;
        let delta = if (op / 8) % 2 == 0 { 1int } else { -1int };
        (self.with_reg16(p, add16(self.reg16(p), delta)), mem, 8)
    }

    /// INC r, DEC r and LD r, n (`op % 8` is 4, 5 or 6).
    pub open spec fn semantics_x0z456(self, op: u8, mem: BusView) -> (Cpu, BusView, u8) {
        let r = op / 8;
        if op % 8 == 6 {
            let (c, n) = self.fetch8(mem);
            let (c2, m2) = c.with_reg8(mem, r, n);
            (c2, m2, if r == 6 { 12 } else { 8 })
        } else {
            let (c, v) = if op % 8 == 4 {
                self.inc8(self.reg8(mem, r))
            } else {
                self.dec8(self.reg8(mem, r))
            };
            let (c2, m2) = c.with_reg8(mem, r, v);
            (c2, m2, if r == 6 { 12 } else { 4 })
        }
    }

    /// Opcodes 0x00..=0x3F with `op % 8 == 7`: RLCA RRCA RLA RRA DAA CPL SCF CCF.
    pub open spec fn semantics_x0z7(self, op: u8, mem: BusView) -> (Cpu, BusView, u8) {
        let y = op / 8;
        let c = if y < 4 {
            self.rotated_a(y)
        } else if y == 4 {
            self.daa()
        } else if y == 5 {
            Cpu {
                a: !self.a,
                f: set_flag(set_flag(self.f, SUBTRACT_FLAG, true), HALF_CARRY_FLAG, true),
                ..self
            }
        } else if y == 6 {
            self.with_f(flags_nhc(self.f, false, false, true))
        } else {
            self.with_f(flags_nhc(self.f, false, false, !self.flag_c()))
        };
        (c, mem, 4)
    }

    /// Opcodes 0x00..=0x3F, with PC already past the opcode.
    pub open spec fn semantics_low(self, op: u8, mem: BusView) -> (Cpu, BusView, u8) {
        let z = op % 8;
        if z == 0 {
            self.semantics_x0z0(op, mem)
        } else if z == 1 {
            self.semantics_x0z1(op, mem)
        } else if z == 2 {
            self.semantics_x0z2(op, mem)
        } else if z == 3 {
            self.semantics_x0z3(op, mem)
        } else if z == 7 {
            self.semantics_x0z7(op, mem)
        } else {
            self.semantics_x0z456(op, mem)
        }
    }

    /// Opcodes 0x40..=0xBF (LD r, r', HALT and the ALU rows), PC past the opcode.
    pub open spec fn semantics_mid(self, op: u8, mem: BusView) -> (Cpu, BusView, u8) {
        let src = op % 8;
        let dst = (op / 8) % 8;
        let v = self.reg8(mem, src);
        if op == 0x76 {
            (Cpu { halted: true, ..self }, mem, 4)
        } else if op < 0x80 {
            let (c, m) = self.with_reg8(mem, dst, v);
            (c, m, if dst == 6 || src == 6 { 8 } else { 4 })
        } else {
            (self.alu_result(dst, v), mem, if src == 6 { 8 } else { 4 })
        }
    }

    /// The CB-prefixed opcodes, PC past the 0xCB prefix: rotates and shifts,
    /// BIT, RES and SET on the operand `op % 8`.
    pub open spec fn semantics_cb(self, mem: BusView) -> (Cpu, BusView, u8) {
        let (c, op) = self.fetch8(mem);
        let r = op % 8;
        let y = (op / 8) % 8;
        let v = c.reg8(mem, r);
        let cost: u8 = if r == 6 { 16 } else { 8 };
        if op < 0x40 {
            let (c2, res) = c.rotated(y, v);
            let (c3, m3) = c2.with_reg8(mem, r, res);
            (c3, m3, cost)
        } else if op < 0x80 {
            // BIT y: Z set when the bit is clear, H set, C kept
            (c.with_f(flags_znh(c.f, (v >> y) & 1 == 0, false, true)), mem, if r == 6 { 12 } else { 8 })
        } else if op < 0xC0 {
            let (c2, m2) = c.with_reg8(mem, r, v & !(1u8 << y));
            (c2, m2, cost)
        } else {
            let (c2, m2) = c.with_reg8(mem, r, v | (1u8 << y));
            (c2, m2, cost)
        }
    }

    /// Opcodes 0xC0..=0xFF with `op % 8` 0..=3: conditional RET, LDH,
    /// ADD SP, e, LD HL, SP+e, POP, RET, RETI, JP HL, LD SP, HL, JP (cc), the
    /// (C) and (nn) loads, the CB prefix, DI and EI.
    pub open spec fn semantics_x3_low(self, op: u8, mem: BusView) -> (Cpu, BusView, u8) {
        let y = (op / 8) % 8;
        let z = op % 8;
        if z == 0 {
            if y < 4 {
                if self.condition(y) {
                    let (c, ret) = self.pop(mem);
                    (c.with_pc(ret), mem, 20)
                } else {
                    (self, mem, 8)
                }
            } else if y == 4 {
                let (c, n) = self.fetch8(mem);
                (c, mem.write((0xFF00 + n) as u16, c.a), 12)
            } else if y == 5 {
                let (c, e) = self.fetch8(mem);
                let (sp, f) = c.sp_offset(e);
                (Cpu { sp, f, ..c }, mem, 16)
            } else if y == 6 {
                let (c, n) = self.fetch8(mem);
                (c.with_a(mem.read((0xFF00 + n) as u16)), mem, 12)
            } else {
                let (c, e) = self.fetch8(mem);
                let (v, f) = c.sp_offset(e);
                (c.with_f(f).with_hl(v), mem, 12)
            }
        } else if z == 1 {
            if y % 2 == 0 {
                let (c, v) = self.pop(mem);
                (c.with_reg16_stack(y / 2, v), mem, 12)
            } else if y == 1 {
                let (c, ret) = self.pop(mem);
                (c.with_pc(ret), mem, 16)
            } else if y == 3 {
                let (c, ret) = self.pop(mem);
                (Cpu { ime: true, ..c.with_pc(ret) }, mem, 16)
            } else if y == 5 {
                (self.with_pc(self.hl()), mem, 4)
            } else {
                (Cpu { sp: self.hl(), ..self }, mem, 8)
            }
        } else if z == 2 {
            if y < 4 {
                let (c, cycles) = self.jp(mem, self.condition(y));
                (c, mem, cycles)
            } else if y == 4 {
                (self, mem.write((0xFF00 + self.c) as u16, self.a), 8)
            } else if y == 5 {
                let (c, nn) = self.fetch16(mem);
                (c, mem.write(nn, c.a), 16)
            } else if y == 6 {
                (self.with_a(mem.read((0xFF00 + self.c) as u16)), mem, 8)
            } else {
                let (c, nn) = self.fetch16(mem);
                (c.with_a(mem.read(nn)), mem, 16)
            }
        } else {
            if y == 0 {
                let (c, cycles) = self.jp(mem, true);
                (c, mem, cycles)
            } else if y == 1 {
                self.semantics_cb(mem)
            } else if y == 6 {
                // DI: also cancels an EI still pending
                (Cpu { ime: false, ime_pending: false, ..self }, mem, 4)
            } else {
                // EI: interrupts are enabled once the next instruction starts
                (Cpu { ime_pending: true, ..self }, mem, 4)
            }
        }
    }

    /// Opcodes 0xC0..=0xFF with `op % 8` 4..=7: CALL (cc), PUSH, the ALU on
    /// an immediate, and RST.
    pub open spec fn semantics_x3_high(self, op: u8, mem: BusView) -> (Cpu, BusView, u8) {
        let y = (op / 8) % 8;
        let z = op % 8;
        if z == 4 {
            self.call(mem, self.condition(y))
        } else if z == 5 {
            if y % 2 == 0 {
                let (c, m) = self.push(mem, self.reg16_stack(y / 2));
                (c, m, 16)
            } else {
                self.call(mem, true)
            }
        } else if z == 6 {
            let (c, n) = self.fetch8(mem);
            (c.alu_result(y, n), mem, 8)
        } else {
            // RST: call the vector 8 * y
            let (c, m) = self.push(mem, self.pc);
            (c.with_pc((y * 8) as u16), m, 16)
        }
    }

    /// Executes opcode `op`; PC already points past it.
    pub open spec fn semantics(self, op: u8, mem: BusView) -> (Cpu, BusView, u8) {
        if op < 0x40 {
            self.semantics_low(op, mem)
        } else if op < 0xC0 {
            self.semantics_mid(op, mem)
        } else if op % 8 < 4 {
            self.semantics_x3_low(op, mem)
        } else {
            self.semantics_x3_high(op, mem)
        }
    }

    /// The CPU as an instruction starts: an EI from the previous instruction
    /// takes effect.
    pub open spec fn start(self) -> Cpu {
        if self.ime_pending {
            Cpu { ime: true, ime_pending: false, ..self }
        } else {
            self
        }
    }

    /// One step: a halted CPU idles for 4 cycles; otherwise the instruction at
    /// PC runs. The CPU and bus afterwards, and the cost in cycles.
    pub open spec fn step_result(self, mem: BusView) -> (Cpu, BusView, u8) {
        let c = self.start();
        if c.halted {
            (c, mem, 4)
        } else {
            let (c2, op) = c.fetch8(mem);
            c2.semantics(op, mem)
        }
    }

    /// Opcodes followed by a one-byte operand.
    pub open spec fn has_imm8(op: u8) -> bool {
        ||| (op < 0x40 && op % 8 == 6)
        ||| op == 0x10 || op == 0x18 || op == 0x20 || op == 0x28 || op == 0x30 || op == 0x38
        ||| op == 0xCB || op == 0xE0 || op == 0xE8 || op == 0xF0 || op == 0xF8
        ||| (op >= 0xC0 && op % 8 == 6)
    }

    /// Opcodes followed by a two-byte operand.
    pub open spec fn has_imm16(op: u8) -> bool {
        ||| (op < 0x40 && op % 16 == 1)
        ||| op == 0x08 || op == 0xC3 || op == 0xCD || op == 0xEA || op == 0xFA
        ||| (op >= 0xC0 && op < 0xE0 && (op % 8 == 2 || op % 8 == 4))
    }

    /// The address an opcode reads data from, other than its operands and
    /// the stack, if any.
    pub open spec fn data_read(self, op: u8, mem: BusView) -> Option<u16> {
        if op == 0x0A {
            Some(self.bc())
        } else if op == 0x1A {
            Some(self.de())
        } else if op == 0x2A || op == 0x3A || op == 0x34 || op == 0x35 || (0x40 <= op < 0xC0
            && op % 8 == 6 && op != 0x76) {
            Some(self.hl())
        } else if op == 0xCB && mem.read(self.pc) % 8 == 6 {
            Some(self.hl())
        } else if op == 0xFA {
            Some(mem.read_word(self.pc))
        } else {
            None
        }
    }

    /// Opcodes that pop a word off the stack (conditional RETs only when taken).
    pub open spec fn pops(self, op: u8) -> bool {
        ||| (op >= 0xC0 && op % 16 == 1)
        ||| op == 0xC9 || op == 0xD9
        ||| ((op == 0xC0 || op == 0xC8 || op == 0xD0 || op == 0xD8) && self.condition((op / 8) % 4))
    }

    /// Opcode `op` (PC past it) can run: it is defined and every byte it
    /// reads is readable.
    pub open spec fn ready(self, op: u8, mem: BusView) -> bool {
        &&& !undefined_opcode(op)
        &&& Self::has_imm8(op) ==> mem.readable(self.pc)
        &&& Self::has_imm16(op) ==> mem.readable(self.pc) && mem.readable(add16(self.pc, 1))
        &&& self.pops(op) ==> mem.readable(self.sp) && mem.readable(add16(self.sp, 1))
        &&& self.data_read(op, mem) matches Some(addr) ==> mem.readable(addr)
    }

    /// The lowest set bit of `pending` (0..=4): the interrupt with the
    /// highest priority (VBlank, STAT, timer, serial, joypad).
    pub open spec fn first_interrupt(pending: u8) -> u8 {
        if pending & 0x01 != 0 {
            0
        } else if pending & 0x02 != 0 {
            1
        } else if pending & 0x04 != 0 {
            2
        } else if pending & 0x08 != 0 {
            3
        } else {
            4
        }
    }

    /// Interrupt dispatch before an instruction. An interrupt that is both
    /// enabled (IE, 0xFFFF) and requested (IF, 0xFF0F) ends HALT; if the master
    /// enable is on, the one with the highest priority is serviced: its IF bit
    /// is cleared, the master enable turned off, PC pushed and the handler at
    /// 0x40 + 8 * bit entered, in 20 cycles.
    pub open spec fn interrupt_result(self, mem: BusView) -> (Cpu, BusView, u8) {
        let requested = mem.read(0xFF0F);
        let pending = mem.read(0xFFFF) & requested & 0x1F;
        if pending == 0 {
            (self, mem, 0)
        } else if !self.ime {
            (Cpu { halted: false, ..self }, mem, 0)
        } else {
            let bit = Self::first_interrupt(pending);
            let c = Cpu { halted: false, ime: false, ..self };
            let (c2, m2) = c.push(mem.write(0xFF0F, requested & !(1u8 << bit)), self.pc);
            (c2.with_pc((0x40 + 8 * bit) as u16), m2, 20)
        }
    }

    /// The next step can run: a halted CPU always can; otherwise the
    /// instruction at PC must be defined and read only readable bytes.
    pub open spec fn step_ready(self, mem: BusView) -> bool {
        let c = self.start();
        c.halted || (mem.readable(c.pc) && c.fetch8(mem).0.ready(mem.read(c.pc), mem))
    }
}

} // verus!

verus! {

proof fn lemma_opcode_fields(op: u8)
    by (bit_vector)
    ensures
        (op >> 3) & 0x07 == (op / 8) % 8,
        op & 0x07 == op % 8,
        (op >> 4) & 0x03 == (op / 16) % 4,
        (op >> 3) & 0x03 == (op / 8) % 4,
        op >> 3 == op / 8,
        op >> 4 == op / 16,
        (op >> 3) & 0x01 == (op / 8) % 2,
        op & 0x01 == op % 2,
        op >> 1 == op / 2,
{
}

proof fn lemma_byte_bits(x: u8)
    by (bit_vector)
    ensures
        x & 0x0F == x % 16,
        (x & 0x80 != 0) == (x >= 128),
        x & !0x01u8 == x & 0xFE,
{
}

proof fn lemma_shift_left(x: u8)
    by (bit_vector)
    ensures
        (x << 1u8) as u16 == (x as u16 * 2) % 256,
        ((x << 1u8) | 1u8) as u16 == (x as u16 * 2) % 256 + 1,
{
}

proof fn lemma_word_bits(x: u16, n: u16)
    by (bit_vector)
    requires
        n < 256,
    ensures
        x & 0x0FFF == x % 4096,
        0xFF00u16 | n == 0xFF00 + n,
{
}

impl Cpu {
    pub fn new() -> (cpu: Self)
        ensures
            cpu == Cpu::post_boot(),
    {
        // Post-boot register state (DMG)
        Cpu {
            a: 0x01,
            f: 0xB0,
            b: 0x00,
            c: 0x13,
            d: 0x00,
            e: 0xD8,
            h: 0x01,
            l: 0x4D,
            sp: 0xFFFE,
            pc: 0x0100,
            ime: false,
            ime_pending: false,
            halted: false,
        }
    }

    pub fn pc(&self) -> (r: u16)
        ensures
            r == self.pc,
    {
        self.pc
    }

    // Flag accessors (F register, high nibble only)

    pub fn get_zero_flag(&self) -> (r: bool)
        ensures
            r == self.flag_z(),
    {
        (self.f & ZERO_FLAG) != 0
    }

    pub fn set_zero_flag(&mut self, on: bool)
        ensures
            *final(self) == (Cpu { f: set_flag(old(self).f, ZERO_FLAG, on), ..*old(self) }),
    {
        if on {
            self.f = self.f | ZERO_FLAG;
        } else {
            self.f = self.f & !ZERO_FLAG;
        }
    }

    pub fn get_subtract_flag(&self) -> (r: bool)
        ensures
            r == self.flag_n(),
    {
        (self.f & SUBTRACT_FLAG) != 0
    }

    pub fn set_subtract_flag(&mut self, on: bool)
        ensures
            *final(self) == (Cpu { f: set_flag(old(self).f, SUBTRACT_FLAG, on), ..*old(self) }),
    {
        if on {
            self.f = self.f | SUBTRACT_FLAG;
        } else {
            self.f = self.f & !SUBTRACT_FLAG;
        }
    }

    pub fn get_half_carry_flag(&self) -> (r: bool)
        ensures
            r == self.flag_h(),
    {
        (self.f & HALF_CARRY_FLAG) != 0
    }

    pub fn set_half_carry_flag(&mut self, on: bool)
        ensures
            *final(self) == (Cpu { f: set_flag(old(self).f, HALF_CARRY_FLAG, on), ..*old(self) }),
    {
        if on {
            self.f = self.f | HALF_CARRY_FLAG;
        } else {
            self.f = self.f & !HALF_CARRY_FLAG;
        }
    }

    pub fn get_carry_flag(&self) -> (r: bool)
        ensures
            r == self.flag_c(),
    {
        (self.f & CARRY_FLAG) != 0
    }

    pub fn set_carry_flag(&mut self, on: bool)
        ensures
            *final(self) == (Cpu { f: set_flag(old(self).f, CARRY_FLAG, on), ..*old(self) }),
    {
        if on {
            self.f = self.f | CARRY_FLAG;
        } else {
            self.f = self.f & !CARRY_FLAG;
        }
    }

    // Register pair accessors

    pub fn get_af(&self) -> (r: u16)
        ensures
            r == self.af(),
    {
        (self.a as u16) * 256 + self.f as u16
    }

    pub fn set_af(&mut self, value: u16)
        ensures
            *final(self) == old(self).with_af(value),
    {
        self.a = (value / 256) as u8;
        self.f = ((value % 256) as u8) & 0xF0;  // F low nibble is always zero
    }

    pub fn get_bc(&self) -> (r: u16)
        ensures
            r == self.bc(),
    {
        (self.b as u16) * 256 + self.c as u16
    }

    pub fn set_bc(&mut self, value: u16)
        ensures
            *final(self) == old(self).with_bc(value),
    {
        self.b = (value / 256) as u8;
        self.c = (value % 256) as u8;
    }

    pub fn get_de(&self) -> (r: u16)
        ensures
            r == self.de(),
    {
        (self.d as u16) * 256 + self.e as u16
    }

    pub fn set_de(&mut self, value: u16)
        ensures
            *final(self) == old(self).with_de(value),
    {
        self.d = (value / 256) as u8;
        self.e = (value % 256) as u8;
    }

    pub fn get_hl(&self) -> (r: u16)
        ensures
            r == self.hl(),
    {
        (self.h as u16) * 256 + self.l as u16
    }

    pub fn set_hl(&mut self, value: u16)
        ensures
            *final(self) == old(self).with_hl(value),
    {
        self.h = (value / 256) as u8;
        self.l = (value % 256) as u8;
    }

    // Fetch and stack helpers

    fn fetch_byte(&mut self, bus: &mut Bus) -> (byte: u8)
        requires
            old(bus)@.readable(old(self).pc),
        ensures
            (*final(self), byte) == old(self).fetch8(old(bus)@),
            final(bus)@ == old(bus)@,
    {
        let byte = bus.read_byte(self.pc);
        self.pc = self.pc.wrapping_add(1);
        byte
    }

    fn fetch_word(&mut self, bus: &mut Bus) -> (word: u16)
        requires
            old(bus)@.readable(old(self).pc),
            old(bus)@.readable(add16(old(self).pc, 1)),
        ensures
            (*final(self), word) == old(self).fetch16(old(bus)@),
            final(bus)@ == old(bus)@,
    {
        let low = self.fetch_byte(bus) as u16;
        let high = self.fetch_byte(bus) as u16;
        low + high * 256
    }

    /// Pushes a word: SP drops by two and the word is stored there, low byte first.
    pub fn push_word(&mut self, bus: &mut Bus, value: u16)
        ensures
            (*final(self), final(bus)@) == old(self).push(old(bus)@, value),
    {
        self.sp = self.sp.wrapping_sub(2);
        bus.write_word(self.sp, value);
    }

    /// Pops the word at SP, low byte first, and raises SP by two.
    pub fn pop_word(&mut self, bus: &mut Bus) -> (value: u16)
        requires
            old(bus)@.readable(old(self).sp),
            old(bus)@.readable(add16(old(self).sp, 1)),
        ensures
            (*final(self), value) == old(self).pop(old(bus)@),
            final(bus)@ == old(bus)@,
    {
        let value = bus.read_word(self.sp);
        self.sp = self.sp.wrapping_add(2);
        value
    }

    /// Reads the 8-bit operand with encoding `index`: B C D E H L (HL) A.
    pub fn read_r8(&mut self, bus: &mut Bus, index: u8) -> (value: u8)
        requires
            index < 8,
            index == 6 ==> old(bus)@.readable(old(self).hl()),
        ensures
            value == old(self).reg8(old(bus)@, index),
            *final(self) == *old(self),
            final(bus)@ == old(bus)@,
    {
        // index order: B C D E H L (HL) A -- fixed by the opcode encoding
        if index == 0 {
            self.b
        } else if index == 1 {
            self.c
        } else if index == 2 {
            self.d
        } else if index == 3 {
            self.e
        } else if index == 4 {
            self.h
        } else if index == 5 {
            self.l
        } else if index == 6 {
            bus.read_byte(self.get_hl())
        } else {
            self.a
        }
    }

    /// Writes the 8-bit operand with encoding `index`: B C D E H L (HL) A.
    pub fn write_r8(&mut self, bus: &mut Bus, index: u8, value: u8)
        requires
            index < 8,
        ensures
            (*final(self), final(bus)@) == old(self).with_reg8(old(bus)@, index, value),
    {
        // index order: B C D E H L (HL) A -- fixed by the opcode encoding
        if index == 0 {
            self.b = value;
        } else if index == 1 {
            self.c = value;
        } else if index == 2 {
            self.d = value;
        } else if index == 3 {
            self.e = value;
        } else if index == 4 {
            self.h = value;
        } else if index == 5 {
            self.l = value;
        } else if index == 6 {
            bus.write_byte(self.get_hl(), value);
        } else {
            self.a = value;
        }
    }

    fn inc_r8(&mut self, value: u8) -> (result: u8)
        ensures
            (*final(self), result) == old(self).inc8(value),
    {
        proof {
            lemma_byte_bits(value);
        }
        let result = value.wrapping_add(1);
        self.set_zero_flag(result == 0);
        self.set_subtract_flag(false);
        self.set_half_carry_flag((value & 0x0F) == 0x0F);
        // Carry is preserved -- INC never touches it
        result
    }

    fn dec_r8(&mut self, value: u8) -> (result: u8)
        ensures
            (*final(self), result) == old(self).dec8(value),
    {
        proof {
            lemma_byte_bits(value);
        }
        let result = value.wrapping_sub(1);
        self.set_zero_flag(result == 0);
        self.set_subtract_flag(true);
        self.set_half_carry_flag((value & 0x0F) == 0x00);
        // Carry is preserved -- DEC never touches it
        result
    }

    /// The register pair that PUSH/POP encode as `index`: BC, DE, HL, AF.
    pub fn read_r16_stack(&self, index: u8) -> (value: u16)
        requires
            index < 4,
        ensures
            value == self.reg16_stack(index),
    {
        // Stack pair table: BC DE HL AF (slot 3 is AF, not SP -- PUSH/POP only)
        if index == 0 {
            self.get_bc()
        } else if index == 1 {
            self.get_de()
        } else if index == 2 {
            self.get_hl()
        } else {
            self.get_af()
        }
    }

    /// Sets the register pair that PUSH/POP encode as `index` (BC, DE, HL, AF;
    /// F keeps only its high nibble).
    pub fn write_r16_stack(&mut self, index: u8, value: u16)
        requires
            index < 4,
        ensures
            *final(self) == old(self).with_reg16_stack(index, value),
    {
        // Stack pair table: BC DE HL AF. Slot 3 routes through set_af, which
        // masks F's low nibble to zero -- a raw f write would corrupt flags
        if index == 0 {
            self.set_bc(value);
        } else if index == 1 {
            self.set_de(value);
        } else if index == 2 {
            self.set_hl(value);
        } else {
            self.set_af(value);
        }
    }

    fn jr_conditional(&mut self, bus: &mut Bus, condition: bool) -> (cycles: u8)
        requires
            old(bus)@.readable(old(self).pc),
        ensures
            (*final(self), cycles) == old(self).jr(old(bus)@, condition),
            final(bus)@ == old(bus)@,
    {
        let offset = self.fetch_byte(bus);
        if condition {
            // the offset is a signed byte: sign-extend it to 16 bits
            let delta: u16 = if offset < 0x80 {
                offset as u16
            } else {
                proof {
                    lemma_word_bits(0, offset as u16);
                }
                0xFF00 | (offset as u16)
            };
            self.pc = self.pc.wrapping_add(delta);
            12
        } else {
            8
        }
    }

    fn jp_conditional(&mut self, bus: &mut Bus, condition: bool) -> (cycles: u8)
        requires
            old(bus)@.readable(old(self).pc),
            old(bus)@.readable(add16(old(self).pc, 1)),
        ensures
            (*final(self), cycles) == old(self).jp(old(bus)@, condition),
            final(bus)@ == old(bus)@,
    {
        let target = self.fetch_word(bus);
        if condition {
            self.pc = target;
            16
        } else {
            12
        }
    }

    // ALU

    fn alu_and(&mut self, value: u8)
        ensures
            *final(self) == old(self).and_a(value),
    {
        self.a = self.a & value;
        self.set_zero_flag(self.a == 0);
        self.set_subtract_flag(false);
        self.set_half_carry_flag(true);
        self.set_carry_flag(false);
    }

    fn alu_cp(&mut self, value: u8)
        ensures
            *final(self) == old(self).cp_a(value),
    {
        let a = self.a;
        proof {
            lemma_byte_bits(a);
            lemma_byte_bits(value);
        }
        self.set_zero_flag(a == value);
        self.set_subtract_flag(true);
        self.set_half_carry_flag((a & 0x0F) < (value & 0x0F));
        self.set_carry_flag(a < value);
    }

    fn alu_or(&mut self, value: u8)
        ensures
            *final(self) == old(self).or_a(value),
    {
        self.a = self.a | value;
        self.set_zero_flag(self.a == 0);
        self.set_subtract_flag(false);
        self.set_half_carry_flag(false);
        self.set_carry_flag(false);
    }

    fn alu_xor(&mut self, value: u8)
        ensures
            *final(self) == old(self).xor_a(value),
    {
        self.a = self.a ^ value;
        self.set_zero_flag(self.a == 0);
        self.set_subtract_flag(false);
        self.set_half_carry_flag(false);
        self.set_carry_flag(false);
    }

    fn alu_add(&mut self, value: u8)
        ensures
            *final(self) == old(self).add_a(value),
    {
        let a = self.a;
        proof {
            lemma_byte_bits(a);
            lemma_byte_bits(value);
        }
        let result = a.wrapping_add(value);
        let carry = (a as u16) + (value as u16) > 0xFF;
        self.set_zero_flag(result == 0);
        self.set_subtract_flag(false);
        self.set_half_carry_flag((a & 0x0F) + (value & 0x0F) > 0x0F);
        self.set_carry_flag(carry);
        self.a = result;
    }
}


proof fn lemma_shifts(v: u8, c: u8)
    requires
        c <= 1,
    ensures
        ((v << 1u8) | (v >> 7u8)) as u16 == (v as u16 * 2) % 256 + v as u16 / 128,
        ((v >> 1u8) | (v << 7u8)) as u16 == v as u16 / 2 + (v as u16 % 2) * 128,
        ((v << 1u8) | c) as u16 == (v as u16 * 2) % 256 + c as u16,
        ((v >> 1u8) | (c << 7u8)) as u16 == v as u16 / 2 + c as u16 * 128,
        (v << 1u8) as u16 == (v as u16 * 2) % 256,
        ((v >> 1u8) | (v & 0x80u8)) as u16 == v as u16 / 2 + (v as u16 / 128) * 128,
        ((v << 4u8) | (v >> 4u8)) as u16 == (v as u16 % 16) * 16 + v as u16 / 16,
        (v >> 1u8) as u16 == v as u16 / 2,
        (v & 1 != 0) == (v % 2 == 1),
        (v & 0x80 != 0) == (v >= 128),
{
    assert(((v << 1u8) | (v >> 7u8)) as u16 == (v as u16 * 2) % 256 + v as u16 / 128) by (bit_vector)
        requires
            c <= 1;
    assert(((v >> 1u8) | (v << 7u8)) as u16 == v as u16 / 2 + (v as u16 % 2) * 128) by (bit_vector)
        requires
            c <= 1;
    assert(((v << 1u8) | c) as u16 == (v as u16 * 2) % 256 + c as u16) by (bit_vector)
        requires
            c <= 1;
    assert(((v >> 1u8) | (c << 7u8)) as u16 == v as u16 / 2 + c as u16 * 128) by (bit_vector)
        requires
            c <= 1;
    assert((v << 1u8) as u16 == (v as u16 * 2) % 256) by (bit_vector)
        requires
            c <= 1;
    assert(((v >> 1u8) | (v & 0x80u8)) as u16 == v as u16 / 2 + (v as u16 / 128) * 128) by (bit_vector)
        requires
            c <= 1;
    assert(((v << 4u8) | (v >> 4u8)) as u16 == (v as u16 % 16) * 16 + v as u16 / 16) by (bit_vector)
        requires
            c <= 1;
    assert((v >> 1u8) as u16 == v as u16 / 2) by (bit_vector)
        requires
            c <= 1;
    assert((v & 1 != 0) == (v % 2 == 1)) by (bit_vector)
        requires
            c <= 1;
    assert((v & 0x80 != 0) == (v >= 128)) by (bit_vector)
        requires
            c <= 1;
}

proof fn lemma_low_bits16(x: u16)
    by (bit_vector)
    ensures
        x & 0x0F == x % 16,
        x & 0xFF == x % 256,
{
}

impl Cpu {
    fn condition_met(&self, cc: u8) -> (r: bool)
        ensures
            r == self.condition(cc),
    {
        if cc == 0 {
            !self.get_zero_flag()
        } else if cc == 1 {
            self.get_zero_flag()
        } else if cc == 2 {
            !self.get_carry_flag()
        } else {
            self.get_carry_flag()
        }
    }

    /// Reads the register pair with encoding `p`: BC DE HL SP.
    fn read_r16(&self, p: u8) -> (value: u16)
        ensures
            value == self.reg16(p),
    {
        if p == 0 {
            self.get_bc()
        } else if p == 1 {
            self.get_de()
        } else if p == 2 {
            self.get_hl()
        } else {
            self.sp
        }
    }

    fn write_r16(&mut self, p: u8, value: u16)
        ensures
            *final(self) == old(self).with_reg16(p, value),
    {
        if p == 0 {
            self.set_bc(value);
        } else if p == 1 {
            self.set_de(value);
        } else if p == 2 {
            self.set_hl(value);
        } else {
            self.sp = value;
        }
    }

    fn call_conditional(&mut self, bus: &mut Bus, condition: bool) -> (cycles: u8)
        requires
            old(bus)@.readable(old(self).pc),
            old(bus)@.readable(add16(old(self).pc, 1)),
        ensures
            (*final(self), final(bus)@, cycles) == old(self).call(old(bus)@, condition),
    {
        let target = self.fetch_word(bus);
        if condition {
            let ret = self.pc;
            self.push_word(bus, ret);
            self.pc = target;
            24
        } else {
            12
        }
    }

    fn alu_adc(&mut self, value: u8)
        ensures
            *final(self) == old(self).adc_a(value),
    {
        let a = self.a;
        proof {
            lemma_byte_bits(a);
            lemma_byte_bits(value);
        }
        let carry_in: u8 = if self.get_carry_flag() { 1 } else { 0 };
        let sum = a as u16 + value as u16 + carry_in as u16;
        let result = (sum % 256) as u8;
        self.set_zero_flag(result == 0);
        self.set_subtract_flag(false);
        self.set_half_carry_flag((a & 0x0F) + (value & 0x0F) + carry_in > 0x0F);
        self.set_carry_flag(sum > 0xFF);
        self.a = result;
    }

    fn alu_sub(&mut self, value: u8)
        ensures
            *final(self) == old(self).sub_a(value),
    {
        let a = self.a;
        proof {
            lemma_byte_bits(a);
            lemma_byte_bits(value);
        }
        let result = a.wrapping_sub(value);
        self.set_zero_flag(result == 0);
        self.set_subtract_flag(true);
        self.set_half_carry_flag((a & 0x0F) < (value & 0x0F));
        self.set_carry_flag(a < value);
        self.a = result;
    }

    fn alu_sbc(&mut self, value: u8)
        ensures
            *final(self) == old(self).sbc_a(value),
    {
        let a = self.a;
        proof {
            lemma_byte_bits(a);
            lemma_byte_bits(value);
        }
        let carry_in: u8 = if self.get_carry_flag() { 1 } else { 0 };
        let result = a.wrapping_sub(value).wrapping_sub(carry_in);
        self.set_zero_flag(result == 0);
        self.set_subtract_flag(true);
        self.set_half_carry_flag((a & 0x0F) < (value & 0x0F) + carry_in);
        self.set_carry_flag((a as u16) < value as u16 + carry_in as u16);
        self.a = result;
    }

    /// The ALU operation with encoding `y`: ADD ADC SUB SBC AND XOR OR CP.
    fn alu(&mut self, y: u8, value: u8)
        ensures
            *final(self) == old(self).alu_result(y, value),
    {
        if y == 0 {
            self.alu_add(value);
        } else if y == 1 {
            self.alu_adc(value);
        } else if y == 2 {
            self.alu_sub(value);
        } else if y == 3 {
            self.alu_sbc(value);
        } else if y == 4 {
            self.alu_and(value);
        } else if y == 5 {
            self.alu_xor(value);
        } else if y == 6 {
            self.alu_or(value);
        } else {
            self.alu_cp(value);
        }
    }

    /// The rotate or shift with encoding `y` applied to `value`: the result
    /// and the bit shifted out.
    fn shift_value(&self, y: u8, value: u8) -> (r: (u8, bool))
        ensures
            r == self.shifted(y, value),
    {
        let carry_in: u8 = if self.get_carry_flag() { 1 } else { 0 };
        proof {
            lemma_shifts(value, carry_in);
        }
        if y == 0 {
            // RLC
            ((value << 1) | (value >> 7), value & 0x80 != 0)
        } else if y == 1 {
            // RRC
            ((value >> 1) | (value << 7), value & 0x01 != 0)
        } else if y == 2 {
            // RL
            ((value << 1) | carry_in, value & 0x80 != 0)
        } else if y == 3 {
            // RR
            ((value >> 1) | (carry_in << 7), value & 0x01 != 0)
        } else if y == 4 {
            // SLA
            (value << 1, value & 0x80 != 0)
        } else if y == 5 {
            // SRA: bit 7 is kept
            ((value >> 1) | (value & 0x80), value & 0x01 != 0)
        } else if y == 6 {
            // SWAP
            ((value << 4) | (value >> 4), false)
        } else {
            // SRL
            (value >> 1, value & 0x01 != 0)
        }
    }

    /// CB rotate or shift: sets Z from the result, clears N and H, and puts
    /// the bit shifted out into C.
    fn rotate(&mut self, y: u8, value: u8) -> (result: u8)
        ensures
            (*final(self), result) == old(self).rotated(y, value),
    {
        let (result, carry) = self.shift_value(y, value);
        self.set_zero_flag(result == 0);
        self.set_subtract_flag(false);
        self.set_half_carry_flag(false);
        self.set_carry_flag(carry);
        result
    }

    /// RLCA, RRCA, RLA, RRA: the rotates of A that always clear Z.
    fn rotate_a(&mut self, y: u8)
        ensures
            *final(self) == old(self).rotated_a(y),
    {
        let (result, carry) = self.shift_value(y, self.a);
        self.a = result;
        self.set_zero_flag(false);  // accumulator rotates always clear Z
        self.set_subtract_flag(false);
        self.set_half_carry_flag(false);
        self.set_carry_flag(carry);
    }

    /// DAA: decimal adjust of A after a BCD addition or subtraction.
    #[verifier::spinoff_prover]
    #[verifier::rlimit(50)]
    fn decimal_adjust(&mut self)
        ensures
            *final(self) == old(self).daa(),
    {
        let a = self.a;
        proof {
            lemma_byte_bits(a);
        }
        let half = self.get_half_carry_flag();
        let carry = self.get_carry_flag();
        if !self.get_subtract_flag() {
            let high = carry || a > 0x99;
            let a1 = if high { a.wrapping_add(0x60) } else { a };
            let a2 = if half || (a & 0x0F) > 0x09 { a1.wrapping_add(0x06) } else { a1 };
            self.a = a2;
            self.set_zero_flag(a2 == 0);
            self.set_subtract_flag(false);
            self.set_half_carry_flag(false);
            self.set_carry_flag(high);
        } else {
            let a1 = if carry { a.wrapping_sub(0x60) } else { a };
            let a2 = if half { a1.wrapping_sub(0x06) } else { a1 };
            self.a = a2;
            self.set_zero_flag(a2 == 0);
            self.set_subtract_flag(true);
            self.set_half_carry_flag(false);
            self.set_carry_flag(carry);
        }
    }

    /// SP plus the signed byte `e`; sets the flags of ADD SP, e.
    fn add_sp_offset(&mut self, e: u8) -> (result: u16)
        ensures
            result == old(self).sp_offset(e).0,
            *final(self) == old(self).with_f(old(self).sp_offset(e).1),
    {
        let sp = self.sp;
        proof {
            lemma_low_bits16(sp);
            lemma_low_bits16(e as u16);
            lemma_word_bits(0, e as u16);
        }
        // the offset is a signed byte: sign-extend it to 16 bits
        let delta: u16 = if e < 0x80 { e as u16 } else { 0xFF00 | (e as u16) };
        let result = sp.wrapping_add(delta);
        self.set_zero_flag(false);
        self.set_subtract_flag(false);
        self.set_half_carry_flag((sp & 0x0F) + (e as u16 & 0x0F) > 0x0F);
        self.set_carry_flag((sp & 0xFF) + e as u16 > 0xFF);
        result
    }

    /// ADD HL, rr.
    fn add_to_hl(&mut self, value: u16)
        ensures
            *final(self) == old(self).add_hl(value),
    {
        let hl = self.get_hl();
        proof {
            lemma_word_bits(hl, 0);
            lemma_word_bits(value, 0);
        }
        // Z is preserved -- ADD HL, rr never touches it
        self.set_subtract_flag(false);
        self.set_half_carry_flag((hl & 0x0FFF) + (value & 0x0FFF) > 0x0FFF);
        self.set_carry_flag(hl as u32 + value as u32 > 0xFFFF);
        self.set_hl(hl.wrapping_add(value));
    }
}

impl Cpu {
    /// Executes one instruction and returns its cost in clock cycles. A
    /// halted CPU idles for 4 cycles; an EI from the previous instruction
    /// takes effect first.
    pub fn step(&mut self, bus: &mut Bus) -> (cycles: u8)
        requires
            old(self).step_ready(old(bus)@),
        ensures
            (*final(self), final(bus)@, cycles) == old(self).step_result(old(bus)@),
    {
        if self.ime_pending {
            self.ime = true;
            self.ime_pending = false;
        }
        if self.halted {
            return 4;
        }
        let opcode = self.fetch_byte(bus);
        proof {
            lemma_opcode_fields(opcode);
        }
        if opcode < 0x40 {
            let z = opcode & 0x07;
            if z == 0 {
                self.execute_x0z0(bus, opcode)
            } else if z == 1 {
                self.execute_x0z1(bus, opcode)
            } else if z == 2 {
                self.execute_x0z2(bus, opcode)
            } else if z == 3 {
                self.execute_x0z3(bus, opcode)
            } else if z == 7 {
                self.execute_x0z7(bus, opcode)
            } else {
                self.execute_x0z456(bus, opcode)
            }
        } else if opcode < 0xC0 {
            self.execute_mid(bus, opcode)
        } else {
            let z = opcode & 0x07;
            if z == 0 {
                self.execute_x3z0(bus, opcode)
            } else if z == 1 {
                self.execute_x3z1(bus, opcode)
            } else if z == 2 {
                self.execute_x3z2(bus, opcode)
            } else if z == 3 {
                self.execute_x3z3(bus, opcode)
            } else {
                self.execute_x3_high(bus, opcode)
            }
        }
    }

    /// NOP, LD (nn), SP, STOP, JR e, JR cc, e.
    fn execute_x0z0(&mut self, bus: &mut Bus, opcode: u8) -> (cycles: u8)
        requires
            opcode < 0x40,
            opcode % 8 == 0,
            old(self).ready(opcode, old(bus)@),
        ensures
            (*final(self), final(bus)@, cycles) == old(self).semantics_x0z0(opcode, old(bus)@),
    {
        proof {
            lemma_opcode_fields(opcode);
        }
        let y = opcode >> 3;
        if y == 0 {
            4  // NOP
        } else if y == 1 {
            // LD (nn), SP
            let addr = self.fetch_word(bus);
            let sp = self.sp;
            bus.write_word(addr, sp);
            20
        } else if y == 2 {
            // STOP: the byte after it is skipped
            let _ = self.fetch_byte(bus);
            4
        } else if y == 3 {
            // JR e
            self.jr_conditional(bus, true)
        } else {
            // JR cc, e -- conditional relative jump (cc = NZ/Z/NC/C)
            let condition = self.condition_met(y - 4);
            self.jr_conditional(bus, condition)
        }
    }

    /// LD rr, nn and ADD HL, rr.
    fn execute_x0z1(&mut self, bus: &mut Bus, opcode: u8) -> (cycles: u8)
        requires
            opcode < 0x40,
            opcode % 8 == 1,
            old(self).ready(opcode, old(bus)@),
        ensures
            (*final(self), final(bus)@, cycles) == old(self).semantics_x0z1(opcode, old(bus)@),
    {
        proof {
            lemma_opcode_fields(opcode);
        }
        let p = opcode >> 4;
        if (opcode >> 3) & 0x01 == 0 {
            // LD rr, nn - load a 16-bit immediate
            let nn = self.fetch_word(bus);
            self.write_r16(p, nn);
            12
        } else {
            // ADD HL, rr
            let value = self.read_r16(p);
            self.add_to_hl(value);
            8
        }
    }

    /// LD (BC), A; LD (DE), A; LD (HL+), A; LD (HL-), A and the matching loads into A.
    #[verifier::spinoff_prover]
    #[verifier::rlimit(40)]
    fn execute_x0z2(&mut self, bus: &mut Bus, opcode: u8) -> (cycles: u8)
        requires
            opcode < 0x40,
            opcode % 8 == 2,
            old(self).ready(opcode, old(bus)@),
        ensures
            (*final(self), final(bus)@, cycles) == old(self).semantics_x0z2(opcode, old(bus)@),
    {
        proof {
            lemma_opcode_fields(opcode);
        }
        let p = opcode >> 4;
        let addr = if p == 0 {
            self.get_bc()
        } else if p == 1 {
            self.get_de()
        } else {
            self.get_hl()
        };
        if (opcode >> 3) & 0x01 == 0 {
            bus.write_byte(addr, self.a);
        } else {
            self.a = bus.read_byte(addr);
        }
        if p == 2 {
            self.set_hl(addr.wrapping_add(1));
        } else if p == 3 {
            self.set_hl(addr.wrapping_sub(1));
        }
        8
    }

    /// INC rr and DEC rr -- no flags.
    fn execute_x0z3(&mut self, bus: &mut Bus, opcode: u8) -> (cycles: u8)
        requires
            opcode < 0x40,
            opcode % 8 == 3,
        ensures
            (*final(self), final(bus)@, cycles) == old(self).semantics_x0z3(opcode, old(bus)@),
    {
        proof {
            lemma_opcode_fields(opcode);
        }
        let p = opcode >> 4;
        let value = self.read_r16(p);
        if (opcode >> 3) & 0x01 == 0 {
            self.write_r16(p, value.wrapping_add(1));
        } else {
            self.write_r16(p, value.wrapping_sub(1));
        }
        8
    }

    /// INC r, DEC r, LD r, n.
    fn execute_x0z456(&mut self, bus: &mut Bus, opcode: u8) -> (cycles: u8)
        requires
            opcode < 0x40,
            opcode % 8 == 4 || opcode % 8 == 5 || opcode % 8 == 6,
            old(self).ready(opcode, old(bus)@),
        ensures
            (*final(self), final(bus)@, cycles) == old(self).semantics_x0z456(opcode, old(bus)@),
    {
        proof {
            lemma_opcode_fields(opcode);
        }
        let r = opcode >> 3;
        if opcode & 0x07 == 6 {
            // LD r, n -- immediate into register (or (HL) for r 6)
            let n = self.fetch_byte(bus);
            self.write_r8(bus, r, n);
            if r == 6 {
                12
            } else {
                8
            }
        } else {
            let value = self.read_r8(bus, r);
            let result = if opcode & 0x07 == 4 {
                self.inc_r8(value)
            } else {
                self.dec_r8(value)
            };
            self.write_r8(bus, r, result);
            if r == 6 {
                12
            } else {
                4
            }
        }
    }

    /// RLCA, RRCA, RLA, RRA, DAA, CPL, SCF, CCF.
    fn execute_x0z7(&mut self, bus: &mut Bus, opcode: u8) -> (cycles: u8)
        requires
            opcode < 0x40,
            opcode % 8 == 7,
        ensures
            (*final(self), final(bus)@, cycles) == old(self).semantics_x0z7(opcode, old(bus)@),
    {
        proof {
            lemma_opcode_fields(opcode);
        }
        let y = opcode >> 3;
        if y < 4 {
            self.rotate_a(y);
        } else if y == 4 {
            self.decimal_adjust();
        } else if y == 5 {
            // CPL
            self.a = !self.a;
            self.set_subtract_flag(true);
            self.set_half_carry_flag(true);
        } else if y == 6 {
            // SCF
            self.set_subtract_flag(false);
            self.set_half_carry_flag(false);
            self.set_carry_flag(true);
        } else {
            // CCF
            let carry = self.get_carry_flag();
            self.set_subtract_flag(false);
            self.set_half_carry_flag(false);
            self.set_carry_flag(!carry);
        }
        4
    }

    /// LD r, r', HALT, and the ALU on a register or (HL).
    fn execute_mid(&mut self, bus: &mut Bus, opcode: u8) -> (cycles: u8)
        requires
            0x40 <= opcode < 0xC0,
            old(self).ready(opcode, old(bus)@),
        ensures
            (*final(self), final(bus)@, cycles) == old(self).semantics_mid(opcode, old(bus)@),
    {
        proof {
            lemma_opcode_fields(opcode);
        }
        if opcode == 0x76 {
            // HALT: the CPU idles until an interrupt is pending
            self.halted = true;
            return 4;
        }
        let src = opcode & 0x07;
        let value = self.read_r8(bus, src);
        if opcode < 0x80 {
            // LD r, r' -- register-to-register
            let dst = (opcode >> 3) & 0x07;
            self.write_r8(bus, dst, value);
            if dst == 6 || src == 6 {
                8
            } else {
                4
            }
        } else {
            self.alu((opcode >> 3) & 0x07, value);
            if src == 6 {
                8
            } else {
                4
            }
        }
    }

    fn step_cb(&mut self, bus: &mut Bus) -> (cycles: u8)
        requires
            old(self).ready(0xCB, old(bus)@),
        ensures
            (*final(self), final(bus)@, cycles) == old(self).semantics_cb(old(bus)@),
    {
        let cb_opcode = self.fetch_byte(bus);
        proof {
            lemma_opcode_fields(cb_opcode);
        }
        let r = cb_opcode & 0x07;
        let y = (cb_opcode >> 3) & 0x07;
        let value = self.read_r8(bus, r);
        if cb_opcode < 0x40 {
            // RLC RRC RL RR SLA SRA SWAP SRL
            let result = self.rotate(y, value);
            self.write_r8(bus, r, result);
        } else if cb_opcode < 0x80 {
            // BIT y, r: Z set when the bit is clear
            self.set_zero_flag((value >> y) & 1 == 0);
            self.set_subtract_flag(false);
            self.set_half_carry_flag(true);
            return if r == 6 {
                12
            } else {
                8
            };
        } else if cb_opcode < 0xC0 {
            // RES y, r
            self.write_r8(bus, r, value & !(1u8 << y));
        } else {
            // SET y, r
            self.write_r8(bus, r, value | (1u8 << y));
        }
        if r == 6 {
            16
        } else {
            8
        }
    }

    /// RET cc, LDH (n), A, ADD SP, e, LDH A, (n), LD HL, SP+e.
    fn execute_x3z0(&mut self, bus: &mut Bus, opcode: u8) -> (cycles: u8)
        requires
            opcode >= 0xC0,
            opcode % 8 == 0,
            old(self).ready(opcode, old(bus)@),
        ensures
            (*final(self), final(bus)@, cycles) == old(self).semantics_x3_low(opcode, old(bus)@),
    {
        proof {
            lemma_opcode_fields(opcode);
        }
        let y = (opcode >> 3) & 0x07;
        if y < 4 {
            // RET cc
            if self.condition_met(y) {
                self.pc = self.pop_word(bus);
                20
            } else {
                8
            }
        } else if y == 4 {
            // LDH (n), A - store from A to the high page
            let n = self.fetch_byte(bus);
            proof {
                lemma_word_bits(0, n as u16);
            }
            let addr = 0xFF00 | (n as u16);
            bus.write_byte(addr, self.a);
            12
        } else if y == 5 {
            // ADD SP, e
            let e = self.fetch_byte(bus);
            self.sp = self.add_sp_offset(e);
            16
        } else if y == 6 {
            // LDH A, (n) - load into A from the high page
            let n = self.fetch_byte(bus);
            proof {
                lemma_word_bits(0, n as u16);
            }
            let addr = 0xFF00 | (n as u16);
            self.a = bus.read_byte(addr);
            12
        } else {
            // LD HL, SP+e
            let e = self.fetch_byte(bus);
            let value = self.add_sp_offset(e);
            self.set_hl(value);
            12
        }
    }

    /// POP rr, RET, RETI, JP HL, LD SP, HL.
    fn execute_x3z1(&mut self, bus: &mut Bus, opcode: u8) -> (cycles: u8)
        requires
            opcode >= 0xC0,
            opcode % 8 == 1,
            old(self).ready(opcode, old(bus)@),
        ensures
            (*final(self), final(bus)@, cycles) == old(self).semantics_x3_low(opcode, old(bus)@),
    {
        proof {
            lemma_opcode_fields(opcode);
        }
        let y = (opcode >> 3) & 0x07;
        proof {
            lemma_opcode_fields(y);
        }
        if y & 0x01 == 0 {
            // POP rr
            let value = self.pop_word(bus);
            self.write_r16_stack(y >> 1, value);
            12
        } else if y == 1 {
            // RET
            self.pc = self.pop_word(bus);
            16
        } else if y == 3 {
            // RETI: returns and enables interrupts at once
            self.pc = self.pop_word(bus);
            self.ime = true;
            16
        } else if y == 5 {
            // JP HL -- jump to the address in HL (no memory read despite "(HL)" notation)
            self.pc = self.get_hl();
            4
        } else {
            // LD SP, HL
            self.sp = self.get_hl();
            8
        }
    }

    /// JP cc, nn, LD (C), A, LD (nn), A, LD A, (C), LD A, (nn).
    fn execute_x3z2(&mut self, bus: &mut Bus, opcode: u8) -> (cycles: u8)
        requires
            opcode >= 0xC0,
            opcode % 8 == 2,
            old(self).ready(opcode, old(bus)@),
        ensures
            (*final(self), final(bus)@, cycles) == old(self).semantics_x3_low(opcode, old(bus)@),
    {
        proof {
            lemma_opcode_fields(opcode);
            lemma_word_bits(0, self.c as u16);
        }
        let y = (opcode >> 3) & 0x07;
        if y < 4 {
            // JP cc, nn -- conditional absolute jump (cc = NZ/Z/NC/C)
            let condition = self.condition_met(y);
            self.jp_conditional(bus, condition)
        } else if y == 4 {
            // LD (C), A - store A at 0xFF00 plus C
            let addr = 0xFF00 | (self.c as u16);
            bus.write_byte(addr, self.a);
            8
        } else if y == 5 {
            // LD (nn), A
            let addr = self.fetch_word(bus);
            bus.write_byte(addr, self.a);
            16
        } else if y == 6 {
            // LD A, (C)
            let addr = 0xFF00 | (self.c as u16);
            self.a = bus.read_byte(addr);
            8
        } else {
            // LD A, (nn)
            let addr = self.fetch_word(bus);
            self.a = bus.read_byte(addr);
            16
        }
    }

    /// JP nn, the CB prefix, DI, EI.
    fn execute_x3z3(&mut self, bus: &mut Bus, opcode: u8) -> (cycles: u8)
        requires
            opcode >= 0xC0,
            opcode % 8 == 3,
            old(self).ready(opcode, old(bus)@),
        ensures
            (*final(self), final(bus)@, cycles) == old(self).semantics_x3_low(opcode, old(bus)@),
    {
        proof {
            lemma_opcode_fields(opcode);
        }
        let y = (opcode >> 3) & 0x07;
        if y == 0 {
            // JP nn
            self.jp_conditional(bus, true)
        } else if y == 1 {
            self.step_cb(bus)  // hand off to the CB table
        } else if y == 6 {
            // DI
            self.ime = false;
            self.ime_pending = false;
            4
        } else {
            // EI: takes effect once the next instruction starts
            self.ime_pending = true;
            4
        }
    }

    /// CALL cc, nn, PUSH rr, CALL nn, the ALU on an immediate, RST.
    fn execute_x3_high(&mut self, bus: &mut Bus, opcode: u8) -> (cycles: u8)
        requires
            opcode >= 0xC0,
            opcode % 8 >= 4,
            old(self).ready(opcode, old(bus)@),
        ensures
            (*final(self), final(bus)@, cycles) == old(self).semantics_x3_high(opcode, old(bus)@),
    {
        proof {
            lemma_opcode_fields(opcode);
        }
        let y = (opcode >> 3) & 0x07;
        let z = opcode & 0x07;
        proof {
            lemma_opcode_fields(y);
        }
        if z == 4 {
            // CALL cc, nn
            let condition = self.condition_met(y);
            self.call_conditional(bus, condition)
        } else if z == 5 {
            if y & 0x01 == 0 {
                // PUSH rr
                let value = self.read_r16_stack(y >> 1);
                self.push_word(bus, value);
                16
            } else {
                // CALL nn
                self.call_conditional(bus, true)
            }
        } else if z == 6 {
            // ALU A, n
            let n = self.fetch_byte(bus);
            self.alu(y, n);
            8
        } else {
            // RST -- single-byte call to fixed vector (y * 8)
            let ret = self.pc;
            self.push_word(bus, ret);
            self.pc = (y as u16) * 8;
            16
        }
    }
}

impl Cpu {
    fn defined(op: u8) -> (r: bool)
        ensures
            r == !undefined_opcode(op),
    {
        !(op == 0xD3 || op == 0xDB || op == 0xDD || op == 0xE3 || op == 0xE4 || op == 0xEB
            || op == 0xEC || op == 0xED || op == 0xF4 || op == 0xFC || op == 0xFD)
    }

    fn takes_imm8(op: u8) -> (r: bool)
        ensures
            r == Self::has_imm8(op),
    {
        (op < 0x40 && op % 8 == 6) || op == 0x10 || op == 0x18 || op == 0x20 || op == 0x28
            || op == 0x30 || op == 0x38 || op == 0xCB || op == 0xE0 || op == 0xE8 || op == 0xF0
            || op == 0xF8 || (op >= 0xC0 && op % 8 == 6)
    }

    fn takes_imm16(op: u8) -> (r: bool)
        ensures
            r == Self::has_imm16(op),
    {
        (op < 0x40 && op % 16 == 1) || op == 0x08 || op == 0xC3 || op == 0xCD || op == 0xEA
            || op == 0xFA || (op >= 0xC0 && op < 0xE0 && (op % 8 == 2 || op % 8 == 4))
    }

    fn pops_stack(&self, op: u8) -> (r: bool)
        ensures
            r == self.pops(op),
    {
        (op >= 0xC0 && op % 16 == 1) || op == 0xC9 || op == 0xD9 || ((op == 0xC0 || op == 0xC8
            || op == 0xD0 || op == 0xD8) && self.condition_met((op / 8) % 4))
    }

    fn data_address(&self, bus: &Bus, op: u8) -> (r: Option<u16>)
        requires
            Self::has_imm8(op) ==> bus@.readable(self.pc),
            Self::has_imm16(op) ==> bus@.readable(self.pc) && bus@.readable(add16(self.pc, 1)),
        ensures
            r == self.data_read(op, bus@),
    {
        if op == 0x0A {
            Some(self.get_bc())
        } else if op == 0x1A {
            Some(self.get_de())
        } else if op == 0x2A || op == 0x3A || op == 0x34 || op == 0x35 || (0x40 <= op && op < 0xC0
            && op % 8 == 6 && op != 0x76) {
            Some(self.get_hl())
        } else if op == 0xCB && bus.read_byte(self.pc) % 8 == 6 {
            Some(self.get_hl())
        } else if op == 0xFA {
            Some(bus.read_word(self.pc))
        } else {
            None
        }
    }

    /// Whether `step` can run now: the CPU is halted, or the instruction at
    /// PC is defined and every byte it reads lies inside the cartridge image.
    pub fn can_step(&self, bus: &Bus) -> (r: bool)
        ensures
            r == self.step_ready(bus@),
    {
        if self.halted {
            return true;
        }
        if !bus.can_read(self.pc) {
            return false;
        }
        let op = bus.read_byte(self.pc);
        let next = Cpu {
            pc: self.pc.wrapping_add(1),
            ime: self.ime || self.ime_pending,
            ime_pending: false,
            ..*self
        };
        assert(next == self.start().fetch8(bus@).0);
        if !Self::defined(op) {
            return false;
        }
        if Self::takes_imm8(op) && !bus.can_read(next.pc) {
            return false;
        }
        if Self::takes_imm16(op) && !(bus.can_read(next.pc) && bus.can_read(next.pc.wrapping_add(1))) {
            return false;
        }
        if next.pops_stack(op) && !(bus.can_read(next.sp) && bus.can_read(next.sp.wrapping_add(1))) {
            return false;
        }
        match next.data_address(bus, op) {
            Some(addr) => bus.can_read(addr),
            None => true,
        }
    }
}

impl Cpu {
    /// Services a pending interrupt (see `interrupt_result`); returns the
    /// cycles spent, 20 when an interrupt was entered and 0 otherwise.
    pub fn handle_interrupts(&mut self, bus: &mut Bus) -> (cycles: u8)
        ensures
            (*final(self), final(bus)@, cycles) == old(self).interrupt_result(old(bus)@),
    {
        let requested = bus.read_byte(0xFF0F);
        let pending = bus.read_byte(0xFFFF) & requested & 0x1F;
        if pending == 0 {
            return 0;
        }
        // a pending interrupt ends HALT, whether or not it is serviced
        self.halted = false;
        if !self.ime {
            return 0;
        }
        let bit: u8 = if pending & 0x01 != 0 {
            0  // VBlank
        } else if pending & 0x02 != 0 {
            1  // STAT
        } else if pending & 0x04 != 0 {
            2  // timer
        } else if pending & 0x08 != 0 {
            3  // serial
        } else {
            4  // joypad
        };
        self.ime = false;
        bus.write_byte(0xFF0F, requested & !(1u8 << bit));
        let ret = self.pc;
        self.push_word(bus, ret);
        self.pc = 0x40 + (bit as u16) * 8;
        20
    }
}

} // verus!
