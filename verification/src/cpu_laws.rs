use vstd::prelude::*;
use crate::bus::{
    BusView, plain, lemma_read_after_write, lemma_word_round_trip, lemma_write_other_cell,
    lemma_wf_preserved,
};
use crate::cpu::{Cpu, set_flag, flags_znh, flags_znhc, flags_nhc, add16, add8, signed_byte};

verus! {

/// Bit-level facts about the flag updates: each flag reads back as set, the
/// flags not named keep their value, and the low nibble of F is never touched.
pub proof fn lemma_flag_bits(f: u8, z: bool, n: bool, h: bool, c: bool)
    by (bit_vector)
    ensures
        (flags_znhc(f, z, n, h, c) & 0x80 != 0) == z,
        (flags_znhc(f, z, n, h, c) & 0x40 != 0) == n,
        (flags_znhc(f, z, n, h, c) & 0x20 != 0) == h,
        (flags_znhc(f, z, n, h, c) & 0x10 != 0) == c,
        flags_znhc(f, z, n, h, c) % 16 == f % 16,
        (flags_znh(f, z, n, h) & 0x80 != 0) == z,
        (flags_znh(f, z, n, h) & 0x40 != 0) == n,
        (flags_znh(f, z, n, h) & 0x20 != 0) == h,
        flags_znh(f, z, n, h) & 0x10 == f & 0x10,
        flags_znh(f, z, n, h) % 16 == f % 16,
        flags_nhc(f, n, h, c) & 0x80 == f & 0x80,
        (flags_nhc(f, n, h, c) & 0x40 != 0) == n,
        (flags_nhc(f, n, h, c) & 0x20 != 0) == h,
        (flags_nhc(f, n, h, c) & 0x10 != 0) == c,
        flags_nhc(f, n, h, c) % 16 == f % 16,
{
}

/// After an instruction sets all four flags, the flag accessors read back
/// exactly the values it set, and the low nibble of F is unchanged.
pub proof fn lemma_flags_read_back(cpu: Cpu, z: bool, n: bool, h: bool, c: bool)
    ensures
        ({
            let after = Cpu { f: flags_znhc(cpu.f, z, n, h, c), ..cpu };
            &&& after.flag_z() == z
            &&& after.flag_n() == n
            &&& after.flag_h() == h
            &&& after.flag_c() == c
            &&& after.f % 16 == cpu.f % 16
        }),
{
    lemma_flag_bits(cpu.f, z, n, h, c);
}

/// Setting or clearing a flag bit never touches the low nibble of F.
proof fn lemma_set_flag_low_nibble()
    ensures
        forall|g: u8, m: u8, on: bool|
            m % 16 == 0 ==> #[trigger] set_flag(g, m, on) % 16 == g % 16,
        forall|v: u16| #[trigger] (((v % 256) as u8) & 0xF0) % 16 == 0,
{
    assert forall|g: u8, m: u8, on: bool| m % 16 == 0 implies #[trigger] set_flag(g, m, on) % 16
        == g % 16 by {
        assert(m % 16 == 0 ==> (g | m) % 16 == g % 16 && (g & !m) % 16 == g % 16) by (bit_vector);
    }
    assert forall|v: u16| #[trigger] (((v % 256) as u8) & 0xF0) % 16 == 0 by {
        let b = (v % 256) as u8;
        assert((b & 0xF0) % 16 == 0) by (bit_vector);
    }
}

/// The low nibble of F always reads zero: no instruction sets any of its
/// bits, and POP AF clears them.
pub proof fn lemma_step_keeps_f_low_nibble_zero(cpu: Cpu, mem: BusView)
    requires
        cpu.f % 16 == 0,
    ensures
        cpu.step_result(mem).0.f % 16 == 0,
{
    lemma_set_flag_low_nibble();
    let c0 = cpu.start();
    if !c0.halted {
        let (c, op) = c0.fetch8(mem);
        if op < 0x40 {
            lemma_low_block_keeps_f(c, op, mem);
        } else if op < 0xC0 {
        } else {
            lemma_high_block_keeps_f(c, op, mem);
        }
    }
}

#[verifier::rlimit(40)]
proof fn lemma_low_block_keeps_f(c: Cpu, op: u8, mem: BusView)
    requires
        op < 0x40,
        c.f % 16 == 0,
        forall|g: u8, m: u8, on: bool|
            m % 16 == 0 ==> #[trigger] set_flag(g, m, on) % 16 == g % 16,
    ensures
        c.semantics_low(op, mem).0.f % 16 == 0,
{
}

#[verifier::rlimit(40)]
proof fn lemma_high_block_keeps_f(c: Cpu, op: u8, mem: BusView)
    requires
        op >= 0xC0,
        c.f % 16 == 0,
        forall|g: u8, m: u8, on: bool|
            m % 16 == 0 ==> #[trigger] set_flag(g, m, on) % 16 == g % 16,
        forall|v: u16| #[trigger] (((v % 256) as u8) & 0xF0) % 16 == 0,
    ensures
        c.semantics(op, mem).0.f % 16 == 0,
{
    if op == 0xCB {
        let (c2, cb) = c.fetch8(mem);
        assert(c2.f == c.f);
    }
}

/// A register pair loaded through the PUSH/POP table reads back what was
/// loaded (AF with the low nibble of F cleared).
pub proof fn lemma_stack_pair_round_trip(cpu: Cpu, i: u8, v: u16)
    requires
        i < 4,
    ensures
        cpu.with_reg16_stack(i, v).reg16_stack(i) == (if i == 3 { v - v % 16 } else { v as int }),
{
    lemma_register_pairs_round_trip(cpu, v);
}

/// HALT stops the CPU: from then on a step only idles for 4 cycles and
/// changes nothing (but a pending EI taking effect).
pub proof fn lemma_halt_idles(cpu: Cpu, mem: BusView)
    requires
        cpu.halted,
    ensures
        cpu.step_result(mem) == (cpu.start(), mem, 4u8),
{
}

/// EI enables interrupts only once the following instruction starts: right
/// after EI the master enable is unchanged and an enable is pending; DI
/// disables at once and cancels a pending enable.
pub proof fn lemma_ei_di(cpu: Cpu, mem: BusView)
    requires
        !cpu.halted,
        !cpu.ime_pending,
        mem.readable(cpu.pc),
    ensures
        mem.read(cpu.pc) == 0xFB ==> {
            let after = cpu.step_result(mem).0;
            &&& after.ime == cpu.ime
            &&& after.ime_pending
            &&& after.start().ime
        },
        mem.read(cpu.pc) == 0xF3 ==> {
            let after = cpu.step_result(mem).0;
            &&& !after.ime
            &&& !after.ime_pending
        },
{
}

/// Register pairs read back what was loaded into them; AF reads back with
/// the low nibble of F cleared.
pub proof fn lemma_register_pairs_round_trip(cpu: Cpu, v: u16)
    ensures
        cpu.with_bc(v).bc() == v,
        cpu.with_de(v).de() == v,
        cpu.with_hl(v).hl() == v,
        cpu.with_af(v).af() == v - v % 16,
{
    let lo = (v % 256) as u8;
    assert(lo & 0xF0 == lo - lo % 16) by (bit_vector);
}

/// An 8-bit operand reads back the value stored into it (for (HL), when HL
/// addresses plain memory).
pub proof fn lemma_reg8_round_trip(cpu: Cpu, mem: BusView, i: u8, v: u8)
    requires
        mem.wf(),
        i < 8,
        i == 6 ==> plain(cpu.hl()),
    ensures
        ({
            let (c, m) = cpu.with_reg8(mem, i, v);
            c.reg8(m, i) == v
        }),
{
    if i == 6 {
        lemma_read_after_write(mem, cpu.hl(), v);
    }
}

/// A pushed word pops back unchanged and SP returns to where it was, when
/// the two stack bytes below SP are plain memory.
pub proof fn lemma_push_pop_round_trip(cpu: Cpu, mem: BusView, v: u16)
    requires
        mem.wf(),
        plain(add16(cpu.sp, -2)),
        plain(add16(cpu.sp, -1)),
    ensures
        ({
            let (c1, m1) = cpu.push(mem, v);
            let (c2, w) = c1.pop(m1);
            &&& w == v
            &&& c2.sp == cpu.sp
        }),
{
    let sp = add16(cpu.sp, -2);
    assert(sp.wrapping_add(1) == add16(cpu.sp, -1));
    lemma_word_round_trip(mem, sp, v);
}

/// CALL nn pushes the address of the next instruction and jumps to nn; a RET
/// at nn then returns to that address with SP back where it started.
pub proof fn lemma_call_then_ret(cpu: Cpu, mem: BusView)
    requires
        !cpu.halted,
        mem.wf(),
        mem.readable(cpu.pc),
        mem.read(cpu.pc) == 0xCD,
        mem.readable(add16(cpu.pc, 1)),
        mem.readable(add16(cpu.pc, 2)),
        plain(add16(cpu.sp, -2)),
        plain(add16(cpu.sp, -1)),
        ({
            let (c1, m1, _) = cpu.step_result(mem);
            m1.readable(c1.pc) && m1.read(c1.pc) == 0xC9
        }),
    ensures
        ({
            let (c1, m1, n1) = cpu.step_result(mem);
            let (c2, m2, n2) = c1.step_result(m1);
            &&& c1.pc == mem.read_word(add16(cpu.pc, 1))
            &&& c1.sp == add16(cpu.sp, -2)
            &&& m1.read_word(c1.sp) == add16(cpu.pc, 3)
            &&& n1 == 24
            &&& c2.pc == add16(cpu.pc, 3)
            &&& c2.sp == cpu.sp
            &&& n2 == 16
        }),
{
    let (c0, op) = cpu.start().fetch8(mem);
    let (c, target) = c0.fetch16(mem);
    assert(c.pc == add16(cpu.pc, 3));
    lemma_push_pop_round_trip(c, mem, c.pc);
}

/// An interrupt handler that returns with RETI resumes the interrupted
/// program: dispatch pushes PC, turns the master enable off and enters the
/// handler at 0x40 + 8 * bit in 20 cycles; RETI then pops PC back, restores
/// SP and turns the master enable on again, in 16 cycles.
pub proof fn lemma_interrupt_then_reti(cpu: Cpu, mem: BusView)
    requires
        mem.wf(),
        cpu.ime,
        mem.read(0xFFFF) & mem.read(0xFF0F) & 0x1F != 0,
        plain(add16(cpu.sp, -2)),
        plain(add16(cpu.sp, -1)),
        ({
            let (c1, m1, _) = cpu.interrupt_result(mem);
            m1.readable(c1.pc) && m1.read(c1.pc) == 0xD9
        }),
    ensures
        ({
            let (c1, m1, n1) = cpu.interrupt_result(mem);
            let (c2, m2, n2) = c1.step_result(m1);
            let bit = Cpu::first_interrupt(mem.read(0xFFFF) & mem.read(0xFF0F) & 0x1F);
            &&& c1.pc == 0x40 + 8 * bit
            &&& !c1.ime
            &&& !c1.halted
            &&& c1.sp == add16(cpu.sp, -2)
            &&& n1 == 20
            &&& c2.pc == cpu.pc
            &&& c2.sp == cpu.sp
            &&& c2.ime
            &&& n2 == 16
        }),
{
    let requested = mem.read(0xFF0F);
    let pending = mem.read(0xFFFF) & requested & 0x1F;
    let bit = Cpu::first_interrupt(pending);
    let m0 = mem.write(0xFF0F, requested & !(1u8 << bit));
    crate::bus::lemma_wf_preserved(mem, 0xFF0F, requested & !(1u8 << bit), 0);
    let c = Cpu { halted: false, ime: false, ..cpu };
    lemma_push_pop_round_trip(c, m0, cpu.pc);
}

/// Interrupt priority: with the master enable on and some interrupt both
/// enabled (IE) and requested (IF), dispatch services the lowest-numbered one
/// (VBlank bit 0 first, then STAT, timer, serial, joypad bit 4): it enters
/// 0x40 + 8 * bit, clears exactly that IF bit, pushes PC, turns the master
/// enable off and takes 20 cycles. (The stack must not overlap IF.)
pub proof fn lemma_interrupt_priority(cpu: Cpu, mem: BusView)
    requires
        mem.wf(),
        cpu.ime,
        plain(add16(cpu.sp, -2)),
        plain(add16(cpu.sp, -1)),
        add16(cpu.sp, -2) != 0xFF0F,
        add16(cpu.sp, -1) != 0xFF0F,
    ensures
        ({
            let f = mem.read(0xFF0F);
            let pending = mem.read(0xFFFF) & f & 0x1F;
            let (c, m, n) = cpu.interrupt_result(mem);
            pending != 0 ==> {
                &&& n == 20
                &&& !c.ime
                &&& !c.halted
                &&& c.sp == add16(cpu.sp, -2)
                &&& m.read_word(c.sp) == cpu.pc
                &&& pending & 0x01 == 0x01 ==> c.pc == 0x40 && m.read(0xFF0F) == f & 0xFE
                &&& pending & 0x03 == 0x02 ==> c.pc == 0x48 && m.read(0xFF0F) == f & 0xFD
                &&& pending & 0x07 == 0x04 ==> c.pc == 0x50 && m.read(0xFF0F) == f & 0xFB
                &&& pending & 0x0F == 0x08 ==> c.pc == 0x58 && m.read(0xFF0F) == f & 0xF7
                &&& pending & 0x1F == 0x10 ==> c.pc == 0x60 && m.read(0xFF0F) == f & 0xEF
            }
        }),
{
    let f = mem.read(0xFF0F);
    let pending = mem.read(0xFFFF) & f & 0x1F;
    if pending != 0 {
        let bit = Cpu::first_interrupt(pending);
        let cleared = f & !(1u8 << bit);
        let m0 = mem.write(0xFF0F, cleared);
        lemma_read_after_write(mem, 0xFF0F, cleared);
        lemma_wf_preserved(mem, 0xFF0F, cleared, 0);
        let sp = add16(cpu.sp, -2);
        assert(sp.wrapping_add(1) == add16(cpu.sp, -1));
        let v = cpu.pc;
        let lo = (v % 256) as u8;
        let m1 = m0.write(sp, lo);
        lemma_write_other_cell(m0, sp, 0xFF0F, lo);
        lemma_wf_preserved(m0, sp, lo, 0);
        lemma_write_other_cell(m1, sp.wrapping_add(1), 0xFF0F, (v / 256) as u8);
        let c = Cpu { halted: false, ime: false, ..cpu };
        lemma_push_pop_round_trip(c, m0, v);
        let p = pending;
        assert({
            &&& p & 0x01 == 0x01 ==> p & 0x01 != 0
            &&& p & 0x03 == 0x02 ==> p & 0x01 == 0 && p & 0x02 != 0
            &&& p & 0x07 == 0x04 ==> p & 0x01 == 0 && p & 0x02 == 0 && p & 0x04 != 0
            &&& p & 0x0F == 0x08 ==> p & 0x01 == 0 && p & 0x02 == 0 && p & 0x04 == 0 && p & 0x08 != 0
            &&& p & 0x1F == 0x10 ==> p & 0x01 == 0 && p & 0x02 == 0 && p & 0x04 == 0 && p & 0x08 == 0
            &&& f & !(1u8 << 0u8) == f & 0xFE
            &&& f & !(1u8 << 1u8) == f & 0xFD
            &&& f & !(1u8 << 2u8) == f & 0xFB
            &&& f & !(1u8 << 3u8) == f & 0xF7
            &&& f & !(1u8 << 4u8) == f & 0xEF
        }) by (bit_vector);
    }
}

/// Without a pending interrupt (IE & IF & 0x1F == 0) dispatch changes
/// nothing; with one but the master enable off it only ends HALT. Either way
/// no cycles pass, PC, SP and memory stay.
pub proof fn lemma_no_dispatch(cpu: Cpu, mem: BusView)
    requires
        !cpu.ime || mem.read(0xFFFF) & mem.read(0xFF0F) & 0x1F == 0,
    ensures
        ({
            let (c, m, n) = cpu.interrupt_result(mem);
            let pending = mem.read(0xFFFF) & mem.read(0xFF0F) & 0x1F;
            &&& n == 0
            &&& m == mem
            &&& c.pc == cpu.pc
            &&& c.sp == cpu.sp
            &&& c.ime == cpu.ime
            &&& c.halted == (cpu.halted && pending == 0)
            &&& c.a == cpu.a && c.f == cpu.f
        }),
{
}

/// JR e and JR cc, e (0x18; 0x20 NZ, 0x28 Z, 0x30 NC, 0x38 C) jump by the
/// signed byte after the opcode, counted from the next instruction, when the
/// condition on Z (F bit 7) or C (F bit 4) holds: 12 cycles; otherwise they
/// fall through past the two bytes in 8. Registers, flags and memory stay.
pub proof fn lemma_relative_jump(cpu: Cpu, mem: BusView)
    requires
        !cpu.halted,
        ({
            let op = mem.read(cpu.pc);
            op == 0x18 || op == 0x20 || op == 0x28 || op == 0x30 || op == 0x38
        }),
    ensures
        ({
            let op = mem.read(cpu.pc);
            let e = mem.read(add16(cpu.pc, 1));
            let z = cpu.f & 0x80 != 0;
            let cf = cpu.f & 0x10 != 0;
            let taken = op == 0x18 || (op == 0x20 && !z) || (op == 0x28 && z) || (op == 0x30 && !cf)
                || (op == 0x38 && cf);
            let offset: int = if e < 128 { e as int } else { e - 256 };
            let (c, m, cycles) = cpu.step_result(mem);
            &&& c.pc as int == (if taken { (cpu.pc + 2 + offset) % 0x10000 } else { (cpu.pc + 2) % 0x10000 })
            &&& cycles == (if taken { 12u8 } else { 8u8 })
            &&& m == mem
            &&& c.f == cpu.f
            &&& others_kept(cpu, c, 6)
        }),
{
    let e = mem.read(add16(cpu.pc, 1));
    let p1 = add16(cpu.pc, 1) as int;
    let p2 = add16(add16(cpu.pc, 1), 1) as int;
    assert(p2 == (cpu.pc + 2) % 0x10000) by {
        vstd::arithmetic::div_mod::lemma_add_mod_noop(cpu.pc + 1, 1, 0x10000);
        vstd::arithmetic::div_mod::lemma_small_mod(1, 0x10000);
    }
    let off = signed_byte(e);
    assert((p2 + off) % 0x10000 == (cpu.pc + 2 + off) % 0x10000) by {
        vstd::arithmetic::div_mod::lemma_add_mod_noop(cpu.pc + 2, off, 0x10000);
        vstd::arithmetic::div_mod::lemma_add_mod_noop(p2, off, 0x10000);
        vstd::arithmetic::div_mod::lemma_mod_twice(cpu.pc + 2, 0x10000);
    }
}

/// JP nn and JP cc, nn (0xC3; 0xC2 NZ, 0xCA Z, 0xD2 NC, 0xDA C) jump to the
/// little-endian address after the opcode when the condition holds, in 16
/// cycles; otherwise they fall through past the three bytes in 12.
/// Registers, flags and memory stay.
pub proof fn lemma_absolute_jump(cpu: Cpu, mem: BusView)
    requires
        !cpu.halted,
        ({
            let op = mem.read(cpu.pc);
            op == 0xC3 || op == 0xC2 || op == 0xCA || op == 0xD2 || op == 0xDA
        }),
    ensures
        ({
            let op = mem.read(cpu.pc);
            let target = mem.read(add16(cpu.pc, 1)) as int + 256 * mem.read(add16(cpu.pc, 2)) as int;
            let z = cpu.f & 0x80 != 0;
            let cf = cpu.f & 0x10 != 0;
            let taken = op == 0xC3 || (op == 0xC2 && !z) || (op == 0xCA && z) || (op == 0xD2 && !cf)
                || (op == 0xDA && cf);
            let (c, m, cycles) = cpu.step_result(mem);
            &&& c.pc as int == (if taken { target } else { (cpu.pc + 3) % 0x10000 })
            &&& cycles == (if taken { 16u8 } else { 12u8 })
            &&& m == mem
            &&& c.f == cpu.f
            &&& others_kept(cpu, c, 6)
        }),
{
    let p1 = add16(cpu.pc, 1);
    assert(p1.wrapping_add(1) == add16(cpu.pc, 2));
    assert(add16(add16(cpu.pc, 1), 2) as int == (cpu.pc + 3) % 0x10000) by {
        vstd::arithmetic::div_mod::lemma_add_mod_noop(cpu.pc + 1, 2, 0x10000);
        vstd::arithmetic::div_mod::lemma_small_mod(2, 0x10000);
    }
}

/// The result of CB rotate/shift `y` (RLC RRC RL RR SLA SRA SWAP SRL) on `v`
/// with carry `cy`, and the bit that goes to the carry flag.
pub open spec fn rotate_value(y: int, v: u8, cy: int) -> (int, bool) {
    if y == 0 {
        ((2 * v) % 256 + v / 128, v >= 128)
    } else if y == 1 {
        (v / 2 + 128 * (v % 2), v % 2 == 1)
    } else if y == 2 {
        ((2 * v) % 256 + cy, v >= 128)
    } else if y == 3 {
        (v / 2 + 128 * cy, v % 2 == 1)
    } else if y == 4 {
        ((2 * v) % 256, v >= 128)
    } else if y == 5 {
        (v / 2 + 128 * (v / 128), v % 2 == 1)
    } else if y == 6 {
        (16 * (v % 16) + v / 16, false)
    } else {
        ((v / 2) as int, v % 2 == 1)
    }
}

/// The CB rotates and shifts (0xCB then 0x00..=0x3F) on register operand
/// `r = op % 8` (not (HL)), `y = op / 8`: the register gets the rotated
/// value, Z is set when it is 0, N and H are cleared and C gets the bit
/// shifted out (RL and RR shift the old carry in). No other register and no
/// memory changes; 8 cycles, PC past both bytes.
#[verifier::rlimit(40)]
pub proof fn lemma_cb_rotates(cpu: Cpu, mem: BusView)
    requires
        !cpu.halted,
        mem.read(cpu.pc) == 0xCB,
        mem.read(add16(cpu.pc, 1)) < 0x40,
        mem.read(add16(cpu.pc, 1)) % 8 != 6,
    ensures
        ({
            let op = mem.read(add16(cpu.pc, 1));
            let r = (op % 8) as int;
            let v = register_named(cpu, r);
            let cy: int = if cpu.f & 0x10 != 0 { 1 } else { 0 };
            let (c, m, cycles) = cpu.step_result(mem);
            let res = register_named(c, r);
            &&& c.pc == add16(cpu.pc, 2)
            &&& m == mem
            &&& cycles == 8
            &&& others_kept(cpu, c, r)
            &&& res as int == rotate_value((op / 8) as int, v, cy).0
            &&& (c.f & 0x80 != 0) == (res == 0)
            &&& c.f & 0x60 == 0
            &&& (c.f & 0x10 != 0) == rotate_value((op / 8) as int, v, cy).1
        }),
{
    let op = mem.read(add16(cpu.pc, 1));
    let c0 = cpu.start().fetch8(mem).0.fetch8(mem).0;
    let v = c0.reg8(mem, op % 8);
    let (r, carry) = c0.shifted((op / 8) % 8, v);
    lemma_flag_bits(c0.f, r == 0, false, false, carry);
    let g = flags_znhc(c0.f, r == 0, false, false, carry);
    assert(g & 0x40 == 0 && g & 0x20 == 0 ==> g & 0x60 == 0) by (bit_vector);
}

/// BIT, RES and SET (0xCB then 0x40..=0xFF) on register operand `r = op % 8`
/// (not (HL)) and bit `y = (op / 8) % 8`: BIT sets Z exactly when bit y of
/// the operand is 0, clears N, sets H and keeps C and the operand; RES and
/// SET clear or set bit y, keep every other bit and leave the flags. No
/// other register and no memory changes; 8 cycles, PC past both bytes.
#[verifier::rlimit(40)]
pub proof fn lemma_cb_bits(cpu: Cpu, mem: BusView)
    requires
        !cpu.halted,
        mem.read(cpu.pc) == 0xCB,
        mem.read(add16(cpu.pc, 1)) >= 0x40,
        mem.read(add16(cpu.pc, 1)) % 8 != 6,
    ensures
        ({
            let op = mem.read(add16(cpu.pc, 1));
            let r = (op % 8) as int;
            let v = register_named(cpu, r);
            let bit = 1u8 << ((op / 8) % 8);
            let (c, m, cycles) = cpu.step_result(mem);
            let res = register_named(c, r);
            &&& c.pc == add16(cpu.pc, 2)
            &&& m == mem
            &&& cycles == 8
            &&& others_kept(cpu, c, r)
            &&& op < 0x80 ==> {
                &&& res == v
                &&& (c.f & 0x80 != 0) == (v & bit == 0)
                &&& c.f & 0x40 == 0
                &&& c.f & 0x20 != 0
                &&& c.f & 0x10 == cpu.f & 0x10
            }
            &&& 0x80 <= op < 0xC0 ==> res & bit == 0 && res | bit == v | bit && c.f == cpu.f
            &&& 0xC0 <= op ==> res & bit != 0 && res & !bit == v & !bit && c.f == cpu.f
        }),
{
    let op = mem.read(add16(cpu.pc, 1));
    let y = (op / 8) % 8;
    let c0 = cpu.start().fetch8(mem).0.fetch8(mem).0;
    let v = c0.reg8(mem, op % 8);
    assert(y < 8 ==> {
        let bit = 1u8 << y;
        &&& ((v >> y) & 1 == 0) == (v & bit == 0)
        &&& (v & !bit) & bit == 0
        &&& (v & !bit) | bit == v | bit
        &&& (v | bit) & bit != 0
        &&& (v | bit) & !bit == v & !bit
    }) by (bit_vector);
    if op < 0x80 {
        lemma_flag_bits(c0.f, (v >> y) & 1 == 0, false, true, false);
    }
}

/// The 8-bit register an instruction encodes as `i`: 0 B, 1 C, 2 D, 3 E,
/// 4 H, 5 L, 7 A (6 is the byte at HL).
pub open spec fn register_named(cpu: Cpu, i: int) -> u8 {
    if i == 0 {
        cpu.b
    } else if i == 1 {
        cpu.c
    } else if i == 2 {
        cpu.d
    } else if i == 3 {
        cpu.e
    } else if i == 4 {
        cpu.h
    } else if i == 5 {
        cpu.l
    } else {
        cpu.a
    }
}

/// Every 8-bit register but the one encoded as `i`, and SP, keep their value.
pub open spec fn others_kept(before: Cpu, after: Cpu, i: int) -> bool {
    &&& i != 0 ==> after.b == before.b
    &&& i != 1 ==> after.c == before.c
    &&& i != 2 ==> after.d == before.d
    &&& i != 3 ==> after.e == before.e
    &&& i != 4 ==> after.h == before.h
    &&& i != 5 ==> after.l == before.l
    &&& i != 7 ==> after.a == before.a
    &&& after.sp == before.sp
}

/// LD r, n (opcode 0x06 + 8 * r) loads the byte after the opcode into
/// register r in 8 cycles, changing no other register, no flag and no
/// memory; LD (HL), n (0x36) stores it at HL instead, in 12 cycles. PC
/// moves past the two bytes.
pub proof fn lemma_load_immediate(cpu: Cpu, mem: BusView)
    requires
        !cpu.halted,
        mem.read(cpu.pc) < 0x40,
        mem.read(cpu.pc) % 8 == 6,
    ensures
        ({
            let i = mem.read(cpu.pc) / 8;
            let n = mem.read(add16(cpu.pc, 1));
            let (c, m, cycles) = cpu.step_result(mem);
            &&& c.pc == add16(cpu.pc, 2)
            &&& c.f == cpu.f
            &&& others_kept(cpu, c, i as int)
            &&& i != 6 ==> register_named(c, i as int) == n && m == mem && cycles == 8
            &&& i == 6 ==> m == mem.write((cpu.h * 256 + cpu.l) as u16, n) && cycles == 12
        }),
{
}

/// INC r and DEC r (opcodes 0x04 + 8 * r and 0x05 + 8 * r) add or subtract 1
/// modulo 256, on register r in 4 cycles or on the byte at HL in 12. Z is
/// set exactly when the result is 0, N exactly for DEC, H on a carry out of
/// (borrow into) the low nibble; C and every other register are kept, and PC
/// moves past the opcode.
pub proof fn lemma_increment_decrement(cpu: Cpu, mem: BusView)
    requires
        !cpu.halted,
        mem.read(cpu.pc) < 0x40,
        mem.read(cpu.pc) % 8 == 4 || mem.read(cpu.pc) % 8 == 5,
    ensures
        ({
            let op = mem.read(cpu.pc);
            let i = op / 8;
            let inc = op % 8 == 4;
            let hl = (cpu.h * 256 + cpu.l) as u16;
            let v = if i == 6 { mem.read(hl) } else { register_named(cpu, i as int) };
            let r: u8 = if inc { ((v + 1) % 256) as u8 } else { ((v + 255) % 256) as u8 };
            let (c, m, cycles) = cpu.step_result(mem);
            &&& c.pc == add16(cpu.pc, 1)
            &&& others_kept(cpu, c, i as int)
            &&& (c.f & 0x80 != 0) == (r == 0)
            &&& (c.f & 0x40 != 0) == !inc
            &&& (c.f & 0x20 != 0) == (if inc { v % 16 == 15 } else { v % 16 == 0 })
            &&& c.f & 0x10 == cpu.f & 0x10
            &&& i != 6 ==> register_named(c, i as int) == r && m == mem && cycles == 4
            &&& i == 6 ==> m == mem.write(hl, r) && cycles == 12
        }),
{
    let op = mem.read(cpu.pc);
    let i = op / 8;
    let c0 = cpu.start().fetch8(mem).0;
    let v = c0.reg8(mem, i);
    assert(c0.hl() == (cpu.h * 256 + cpu.l) as u16);
    let r: u8 = if op % 8 == 4 { add8(v, 1) } else { add8(v, -1) };
    assert(add8(v, -1) == ((v + 255) % 256) as u8) by {
        assert((v - 1) % 256 == (v + 255) % 256) by {
            vstd::arithmetic::div_mod::lemma_mod_add_multiples_vanish(v - 1, 256);
        }
    }
    lemma_flag_bits(c0.f, r == 0, op % 8 == 5, if op % 8 == 4 { v % 16 == 15 } else { v % 16 == 0 }, false);
}

/// LD r, r' (opcodes 0x40..=0x7F but HALT 0x76) copies operand `op % 8`
/// into operand `(op / 8) % 8`, either of which may be the byte at HL; no
/// flag and no other register changes, in 4 cycles (8 when memory is
/// involved), and PC moves past the opcode.
pub proof fn lemma_register_load(cpu: Cpu, mem: BusView)
    requires
        !cpu.halted,
        0x40 <= mem.read(cpu.pc) < 0x80,
        mem.read(cpu.pc) != 0x76,
    ensures
        ({
            let op = mem.read(cpu.pc);
            let dst = (op / 8) % 8;
            let src = op % 8;
            let hl = (cpu.h * 256 + cpu.l) as u16;
            let v = if src == 6 { mem.read(hl) } else { register_named(cpu, src as int) };
            let (c, m, cycles) = cpu.step_result(mem);
            &&& c.pc == add16(cpu.pc, 1)
            &&& c.f == cpu.f
            &&& others_kept(cpu, c, dst as int)
            &&& dst != 6 ==> register_named(c, dst as int) == v && m == mem
            &&& dst == 6 ==> m == mem.write(hl, v)
            &&& cycles == (if dst == 6 || src == 6 { 8u8 } else { 4u8 })
        }),
{
}

/// The result an ALU operation `y` (ADD ADC SUB SBC AND XOR OR CP) leaves in
/// A, for A = `a`, operand `v` and carry `cy`.
pub open spec fn alu_value(y: int, a: u8, v: u8, cy: int) -> int {
    if y == 0 {
        (a + v) % 256
    } else if y == 1 {
        (a + v + cy) % 256
    } else if y == 2 {
        (a - v) % 256
    } else if y == 3 {
        (a - v - cy) % 256
    } else if y == 4 {
        (a & v) as int
    } else if y == 5 {
        (a ^ v) as int
    } else if y == 6 {
        (a | v) as int
    } else {
        a as int
    }
}

/// The ALU rows (opcodes 0x80..=0xBF): ADD, ADC, SUB, SBC, AND, XOR, OR and
/// CP of A with operand `op % 8`. A gets the sum, difference or bitwise
/// result modulo 256 (CP keeps A); Z is set when that result (for CP, A - v)
/// is 0; N exactly for SUB, SBC and CP; H on a carry out of / borrow into
/// the low nibble (always for AND, never for XOR and OR); C on a carry out
/// of / borrow into bit 8 (never for the bitwise operations). Nothing else
/// changes; 4 cycles, 8 with the byte at HL.
pub proof fn lemma_alu(cpu: Cpu, mem: BusView)
    requires
        !cpu.halted,
        0x80 <= mem.read(cpu.pc) < 0xC0,
    ensures
        ({
            let op = mem.read(cpu.pc);
            let y = ((op / 8) % 8) as int;
            let src = op % 8;
            let hl = (cpu.h * 256 + cpu.l) as u16;
            let v = if src == 6 { mem.read(hl) } else { register_named(cpu, src as int) };
            let a = cpu.a;
            let cy: int = if cpu.f & 0x10 != 0 { 1 } else { 0 };
            let r = alu_value(y, a, v, cy);
            let (c, m, cycles) = cpu.step_result(mem);
            &&& c.a as int == r
            &&& others_kept(cpu, c, 7)
            &&& (c.f & 0x80 != 0) == (if y == 7 { a == v } else { r == 0 })
            &&& (c.f & 0x40 != 0) == (y == 2 || y == 3 || y == 7)
            &&& (c.f & 0x20 != 0) == (if y == 0 {
                a % 16 + v % 16 > 15
            } else if y == 1 {
                a % 16 + v % 16 + cy > 15
            } else if y == 2 || y == 7 {
                a % 16 < v % 16
            } else if y == 3 {
                a % 16 < v % 16 + cy
            } else {
                y == 4
            })
            &&& (c.f & 0x10 != 0) == (if y == 0 {
                a + v > 255
            } else if y == 1 {
                a + v + cy > 255
            } else if y == 2 || y == 7 {
                a < v
            } else if y == 3 {
                a < v + cy
            } else {
                false
            })
            &&& c.pc == add16(cpu.pc, 1)
            &&& m == mem
            &&& cycles == (if src == 6 { 8u8 } else { 4u8 })
        }),
{
    let op = mem.read(cpu.pc);
    let y = (op / 8) % 8;
    let c0 = cpu.start().fetch8(mem).0;
    let v = c0.reg8(mem, op % 8);
    let a = cpu.a;
    let cy = c0.carry_bit();
    let f = c0.f;
    if y == 0 {
        lemma_flag_bits(f, (a + v) % 256 == 0, false, a % 16 + v % 16 > 15, a + v > 255);
    } else if y == 1 {
        lemma_flag_bits(f, (a + v + cy) % 256 == 0, false, a % 16 + v % 16 + cy > 15, a + v + cy > 255);
    } else if y == 2 {
        let r = add8(a, -(v as int));
        lemma_flag_bits(f, r == 0, true, a % 16 < v % 16, a < v);
    } else if y == 3 {
        let r = add8(a, -(v + cy));
        lemma_flag_bits(f, r == 0, true, a % 16 < v % 16 + cy, a < v + cy);
    } else if y == 4 {
        lemma_flag_bits(f, a & v == 0, false, true, false);
    } else if y == 5 {
        lemma_flag_bits(f, a ^ v == 0, false, false, false);
    } else if y == 6 {
        lemma_flag_bits(f, a | v == 0, false, false, false);
    } else {
        lemma_flag_bits(f, a == v, true, a % 16 < v % 16, a < v);
    }
}

/// INC and DEC never touch the carry flag; ADD HL, DE never touches Z; CP
/// never changes A.
pub proof fn lemma_flags_kept(cpu: Cpu, mem: BusView)
    ensures
        ({
            let op = mem.read(cpu.pc);
            let after = cpu.step_result(mem).0;
            &&& (op < 0x40 && (op % 8 == 4 || op % 8 == 5)) ==> after.flag_c() == cpu.flag_c()
            &&& op == 0x19 ==> after.flag_z() == cpu.flag_z()
            &&& ((0xB8 <= op < 0xC0) || op == 0xFE) ==> after.a == cpu.a
        }),
{
    let (c, op) = cpu.start().fetch8(mem);
    let f = c.f;
    assert forall|z: bool, n: bool, h: bool| #[trigger] flags_znh(f, z, n, h) & 0x10 == f & 0x10 by {
        lemma_flag_bits(f, z, n, h, false);
    }
    assert forall|n: bool, h: bool, cy: bool| #[trigger] flags_nhc(f, n, h, cy) & 0x80 == f & 0x80 by {
        lemma_flag_bits(f, false, n, h, cy);
    }
}

/// No instruction takes more than 24 cycles.
#[verifier::rlimit(40)]
pub proof fn lemma_step_cycles(cpu: Cpu, mem: BusView)
    ensures
        cpu.step_result(mem).2 <= 24,
{
    let c0 = cpu.start();
    if !c0.halted {
        let (c, op) = c0.fetch8(mem);
        if op == 0xCB {
            assert(c.semantics_cb(mem).2 <= 16);
        }
    }
}

} // verus!
