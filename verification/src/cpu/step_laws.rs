use vstd::prelude::*;

use crate::cpu::{
    add_wrap, borrow_u8, can_cycle, can_execute, flag_bit, flags_after_add, flags_after_sub,
    half_carry_u16, half_carry_u8, high_byte, law_flag_set_get, low_byte, next_state, sub_wrap,
    with_flag, word, zeroed_registers, CpuState, Registers,
};
use crate::memory::{law_load_after_store, writable};

verus! {

/// Flag bit `n` of `f` is the `n`-th binary digit of `f`: bit 7 is `f / 128`,
/// bit 6 is `f / 64` modulo 2, bit 5 is `f / 32` modulo 2, bit 4 is `f / 16`
/// modulo 2.
pub proof fn law_flag_bit_values(f: u8)
    ensures
        flag_bit(f, 7) as int == f as int / 128,
        flag_bit(f, 6) as int == (f as int / 64) % 2,
        flag_bit(f, 5) as int == (f as int / 32) % 2,
        flag_bit(f, 4) as int == (f as int / 16) % 2,
{
    assert((f >> 7u8) & 1 == f / 128) by (bit_vector);
    assert((f >> 6u8) & 1 == (f / 64) % 2) by (bit_vector);
    assert((f >> 5u8) & 1 == (f / 32) % 2) by (bit_vector);
    assert((f >> 4u8) & 1 == (f / 16) % 2) by (bit_vector);
}

/// A register pair weighs its high byte by 256: joining bytes gives
/// `high * 256 + low`, and any 16-bit value is its high byte times 256 plus
/// its low byte, with the low byte below 256.
pub proof fn law_register_pair_arithmetic(high: u8, low: u8, value: u16)
    ensures
        word(high, low) as int == high as int * 256 + low as int,
        high_byte(value) as int * 256 + low_byte(value) as int == value as int,
        high_byte(value) as int == value as int / 256,
{
}

/// The carry checks judge what the additions and subtraction do to the low
/// nibble (the low 12 bits for 16-bit addition): an 8-bit addition carries
/// out of bit 3 exactly when the low nibble of the sum falls below that of
/// the first operand; a subtraction borrows from bit 4 exactly when the low
/// nibble of the difference rises above that of the first operand, which is
/// when the low nibble of the second operand exceeds that of the first; a
/// 16-bit addition carries out of bit 11 exactly when the low 12 bits of the
/// sum fall below those of the first operand.
pub proof fn law_carry_checks(a: u8, b: u8, x: u16, y: u16)
    ensures
        half_carry_u8(a, b) <==> (a as int + b as int) % 16 < a as int % 16,
        borrow_u8(a, b) <==> (a as int - b as int) % 16 > a as int % 16,
        borrow_u8(a, b) <==> a as int % 16 < b as int % 16,
        half_carry_u16(x, y) <==> (x as int + y as int) % 4096 < x as int % 4096,
{
}

proof fn lemma_three_flags(f: u8, n1: u8, on1: bool, n2: u8, on2: bool, n3: u8, on3: bool, k: u8)
    requires
        n1 < 8,
        n2 < 8,
        n3 < 8,
        k < 8,
    ensures
        flag_bit(with_flag(with_flag(with_flag(f, 1u8 << n1, on1), 1u8 << n2, on2), 1u8 << n3, on3), k)
            == if k == n3 {
            if on3 {
                1u8
            } else {
                0u8
            }
        } else if k == n2 {
            if on2 {
                1u8
            } else {
                0u8
            }
        } else if k == n1 {
            if on1 {
                1u8
            } else {
                0u8
            }
        } else {
            flag_bit(f, k)
        },
{
    let f1 = with_flag(f, 1u8 << n1, on1);
    let f2 = with_flag(f1, 1u8 << n2, on2);
    law_flag_set_get(f, n1, k, on1);
    law_flag_set_get(f1, n2, k, on2);
    law_flag_set_get(f2, n3, k, on3);
}

/// What the 8-bit addition `a + b` of `add_u8` gives: the sum modulo 256; the
/// zero flag set exactly when that sum is 0, whatever it was before; the
/// subtract flag cleared; the half-carry flag set exactly when the low nibble
/// carries; the carry flag and the low four bits of `f` as they were.
pub proof fn law_add_u8(f: u8, a: u8, b: u8)
    ensures
        add_wrap(a, b) as int == (a as int + b as int) % 256,
        flag_bit(flags_after_add(f, a, b), 7) == if (a as int + b as int) % 256 == 0 {
            1u8
        } else {
            0u8
        },
        flag_bit(flags_after_add(f, a, b), 6) == 0,
        flag_bit(flags_after_add(f, a, b), 5) == if a as int % 16 + b as int % 16 >= 16 {
            1u8
        } else {
            0u8
        },
        forall|k: u8| k < 5 ==> flag_bit(#[trigger] flags_after_add(f, a, b), k) == flag_bit(f, k),
{
    law_flag_set_get(f, 7, 7, true);
    let z = add_wrap(a, b) == 0;
    let h = half_carry_u8(a, b);
    assert forall|k: u8| k < 8 implies flag_bit(#[trigger] flags_after_add(f, a, b), k) == if k
        == 5 {
        if h {
            1u8
        } else {
            0u8
        }
    } else if k == 6 {
        0u8
    } else if k == 7 {
        if z {
            1u8
        } else {
            0u8
        }
    } else {
        flag_bit(f, k)
    } by {
        lemma_three_flags(f, 7, z, 6, false, 5, h, k);
    }
    assert(flag_bit(flags_after_add(f, a, b), 7) == if z { 1u8 } else { 0u8 });
    assert(flag_bit(flags_after_add(f, a, b), 6) == 0u8);
    assert(flag_bit(flags_after_add(f, a, b), 5) == if h { 1u8 } else { 0u8 });
}

/// What the 8-bit subtraction `a - b` of `sub_u8` gives: the difference
/// modulo 256 (adding `b` back gives `a`); the zero flag set exactly when
/// that difference is 0, whatever it was before; the subtract flag set; the
/// half-carry flag set exactly when the low nibble of `b` exceeds that of
/// `a`; the carry flag and the low four bits of `f` as they were.
pub proof fn law_sub_u8(f: u8, a: u8, b: u8)
    ensures
        (sub_wrap(a, b) as int + b as int) % 256 == a as int,
        flag_bit(flags_after_sub(f, a, b), 7) == if a == b {
            1u8
        } else {
            0u8
        },
        flag_bit(flags_after_sub(f, a, b), 6) == 1,
        flag_bit(flags_after_sub(f, a, b), 5) == if a as int % 16 < b as int % 16 {
            1u8
        } else {
            0u8
        },
        forall|k: u8| k < 5 ==> flag_bit(#[trigger] flags_after_sub(f, a, b), k) == flag_bit(f, k),
{
    law_flag_set_get(f, 7, 7, true);
    let z = sub_wrap(a, b) == 0;
    let h = borrow_u8(a, b);
    assert forall|k: u8| k < 8 implies flag_bit(#[trigger] flags_after_sub(f, a, b), k) == if k
        == 5 {
        if h {
            1u8
        } else {
            0u8
        }
    } else if k == 6 {
        1u8
    } else if k == 7 {
        if z {
            1u8
        } else {
            0u8
        }
    } else {
        flag_bit(f, k)
    } by {
        lemma_three_flags(f, 7, z, 6, true, 5, h, k);
    }
    assert(flag_bit(flags_after_sub(f, a, b), 7) == if z { 1u8 } else { 0u8 });
    assert(flag_bit(flags_after_sub(f, a, b), 6) == 1u8);
    assert(flag_bit(flags_after_sub(f, a, b), 5) == if h { 1u8 } else { 0u8 });
}


/// `s` is about to decode the opcode `op` at its program counter, and can
/// carry the instruction out.
pub open spec fn ready_for(s: CpuState, op: u8) -> bool {
    &&& s.stall_cycles == 0
    &&& s.memory.well_formed()
    &&& can_execute(s.registers, s.memory)
    &&& s.memory.rom[s.registers.pc as int] == op
}

/// NOP only moves the program counter on, and occupies the CPU for three
/// more cycles.
pub proof fn law_nop(s: CpuState)
    requires
        ready_for(s, 0x00),
    ensures
        next_state(s) == (CpuState {
            registers: Registers { pc: (s.registers.pc + 1) as u16, ..s.registers },
            stall_cycles: 3,
            ..s
        }),
{
}

/// LD BC,n16 loads the two bytes after the opcode into BC, low byte first:
/// C gets the first, B the second.
pub proof fn law_ld_bc_n16(s: CpuState)
    requires
        ready_for(s, 0x01),
    ensures
        ({
            let pc = s.registers.pc as int;
            let t = next_state(s);
            &&& t.registers.c == s.memory.rom[pc + 1]
            &&& t.registers.b == s.memory.rom[pc + 2]
            &&& t.registers.b as int * 256 + t.registers.c as int == s.memory.rom[pc + 1] as int
                + 256 * s.memory.rom[pc + 2] as int
            &&& t.registers == Registers {
                pc: (pc + 3) as u16,
                b: t.registers.b,
                c: t.registers.c,
                ..s.registers
            }
            &&& t.memory == s.memory
            &&& t.stall_cycles == 11
        }),
{
}

/// LD [BC],A stores A at the address `B * 256 + C`; every other RAM byte, the
/// ROM and the registers but the program counter stay as they were.
pub proof fn law_ld_bc_a(s: CpuState)
    requires
        ready_for(s, 0x02),
    ensures
        ({
            let r = s.registers;
            let addr = (r.b as int * 256 + r.c as int) as u16;
            let t = next_state(s);
            &&& t.memory.load(addr) == r.a
            &&& forall|x: u16|
                writable(x) && x != addr ==> #[trigger] t.memory.load(x) == s.memory.load(x)
            &&& t.memory.rom == s.memory.rom
            &&& t.memory.well_formed()
            &&& t.registers == Registers { pc: (r.pc + 1) as u16, ..r }
            &&& t.stall_cycles == 7
        }),
{
    let r = s.registers;
    let addr = (r.b as int * 256 + r.c as int) as u16;
    law_load_after_store(s.memory, addr, addr, r.a);
    assert forall|x: u16| writable(x) && x != addr implies #[trigger] next_state(s).memory.load(x)
        == s.memory.load(x) by {
        law_load_after_store(s.memory, addr, x, r.a);
    }
}

/// INC BC adds one to the pair `B * 256 + C` and touches no flag.
pub proof fn law_inc_bc(s: CpuState)
    requires
        ready_for(s, 0x03),
    ensures
        ({
            let r = s.registers;
            let t = next_state(s);
            &&& t.registers.b as int * 256 + t.registers.c as int == r.b as int * 256 + r.c as int
                + 1
            &&& t.registers.f == r.f
            &&& t.registers == Registers {
                pc: (r.pc + 1) as u16,
                b: t.registers.b,
                c: t.registers.c,
                ..r
            }
            &&& t.memory == s.memory
            &&& t.stall_cycles == 1
        }),
{
}

/// INC B adds one to B modulo 256; the zero flag is set exactly when the new
/// B is 0, whatever it was before; the subtract flag is cleared; the
/// half-carry flag is set exactly when the low nibble of B was 0xF; the
/// carry flag and the low four bits of F stay as they were.
pub proof fn law_inc_b(s: CpuState)
    requires
        ready_for(s, 0x04),
    ensures
        ({
            let r = s.registers;
            let t = next_state(s);
            &&& t.registers.b as int == (r.b as int + 1) % 256
            &&& flag_bit(t.registers.f, 7) == if t.registers.b == 0 {
                1u8
            } else {
                0u8
            }
            &&& flag_bit(t.registers.f, 6) == 0
            &&& flag_bit(t.registers.f, 5) == if r.b as int % 16 == 15 {
                1u8
            } else {
                0u8
            }
            &&& forall|k: u8| k < 5 ==> #[trigger] flag_bit(t.registers.f, k) == flag_bit(r.f, k)
            &&& t.registers == Registers {
                pc: (r.pc + 1) as u16,
                b: t.registers.b,
                f: t.registers.f,
                ..r
            }
            &&& t.memory == s.memory
            &&& t.stall_cycles == 0
        }),
{
    law_add_u8(s.registers.f, s.registers.b, 1);
}

/// DEC B takes one from B modulo 256; the zero flag is set exactly when the
/// new B is 0, whatever it was before; the subtract flag is set; the
/// half-carry flag is set exactly when the low nibble of B was 0; the carry
/// flag and the low four bits of F stay as they were.
pub proof fn law_dec_b(s: CpuState)
    requires
        ready_for(s, 0x05),
    ensures
        ({
            let r = s.registers;
            let t = next_state(s);
            &&& (t.registers.b as int + 1) % 256 == r.b as int
            &&& flag_bit(t.registers.f, 7) == if t.registers.b == 0 {
                1u8
            } else {
                0u8
            }
            &&& flag_bit(t.registers.f, 6) == 1
            &&& flag_bit(t.registers.f, 5) == if r.b as int % 16 == 0 {
                1u8
            } else {
                0u8
            }
            &&& forall|k: u8| k < 5 ==> #[trigger] flag_bit(t.registers.f, k) == flag_bit(r.f, k)
            &&& t.registers == Registers {
                pc: (r.pc + 1) as u16,
                b: t.registers.b,
                f: t.registers.f,
                ..r
            }
            &&& t.memory == s.memory
            &&& t.stall_cycles == 0
        }),
{
    law_sub_u8(s.registers.f, s.registers.b, 1);
}

/// LD B,n8 loads the byte after the opcode into B.
pub proof fn law_ld_b_n8(s: CpuState)
    requires
        ready_for(s, 0x06),
    ensures
        ({
            let pc = s.registers.pc as int;
            let t = next_state(s);
            &&& t.registers == Registers {
                pc: (pc + 2) as u16,
                b: s.memory.rom[pc + 1],
                ..s.registers
            }
            &&& t.memory == s.memory
            &&& t.stall_cycles == 1
        }),
{
}

/// RLCA rotates A left by one: bit 7 comes round to bit 0 and goes to the
/// carry flag; the other flag bits stay as they were.
pub proof fn law_rlca(s: CpuState)
    requires
        ready_for(s, 0x07),
    ensures
        ({
            let r = s.registers;
            let t = next_state(s);
            &&& t.registers.a as int == (r.a as int * 2) % 256 + r.a as int / 128
            &&& flag_bit(t.registers.f, 4) as int == r.a as int / 128
            &&& forall|k: u8|
                k < 8 && k != 4 ==> #[trigger] flag_bit(t.registers.f, k) == flag_bit(r.f, k)
            &&& t.registers == Registers {
                pc: (r.pc + 1) as u16,
                a: t.registers.a,
                f: t.registers.f,
                ..r
            }
            &&& t.memory == s.memory
            &&& t.stall_cycles == 0
        }),
{
    let r = s.registers;
    law_flag_set_get(r.f, 4, 4, r.a >= 128);
    assert forall|k: u8| k < 8 && k != 4 implies #[trigger] flag_bit(next_state(s).registers.f, k)
        == flag_bit(r.f, k) by {
        law_flag_set_get(r.f, 4, k, r.a >= 128);
    }
}

/// LD [a16],SP stores SP at the address `a16` made of the two bytes after the
/// opcode (low byte first): the low byte of SP at `a16`, the high byte at
/// `a16 + 1`. Every other RAM byte, the ROM and the registers but the
/// program counter stay as they were.
pub proof fn law_ld_a16_sp(s: CpuState)
    requires
        ready_for(s, 0x08),
    ensures
        ({
            let r = s.registers;
            let pc = r.pc as int;
            let addr = (s.memory.rom[pc + 1] as int + 256 * s.memory.rom[pc + 2] as int) as u16;
            let t = next_state(s);
            &&& t.memory.load(addr) as int == r.sp as int % 256
            &&& t.memory.load((addr + 1) as u16) as int == r.sp as int / 256
            &&& forall|x: u16|
                writable(x) && x != addr && x != addr + 1 ==> #[trigger] t.memory.load(x)
                    == s.memory.load(x)
            &&& t.memory.rom == s.memory.rom
            &&& t.memory.well_formed()
            &&& t.registers == Registers { pc: (pc + 3) as u16, ..r }
            &&& t.stall_cycles == 4
        }),
{
    let r = s.registers;
    let pc = r.pc as int;
    let m = s.memory;
    let addr = (m.rom[pc + 1] as int + 256 * m.rom[pc + 2] as int) as u16;
    let next = (addr + 1) as u16;
    let m1 = m.store(addr, low_byte(r.sp));
    law_load_after_store(m, addr, addr, low_byte(r.sp));
    law_load_after_store(m1, next, next, high_byte(r.sp));
    law_load_after_store(m1, next, addr, high_byte(r.sp));
    assert forall|x: u16| writable(x) && x != addr && x != addr + 1 implies #[trigger] next_state(
        s,
    ).memory.load(x) == s.memory.load(x) by {
        law_load_after_store(m, addr, x, low_byte(r.sp));
        law_load_after_store(m1, next, x, high_byte(r.sp));
    }
}

/// ADD HL,BC puts `(HL + BC)` modulo 0x10000 in HL, with `HL = H * 256 + L`
/// and `BC = B * 256 + C`; the subtract flag is cleared; the half-carry flag
/// is set exactly when bit 11 carries, the carry flag exactly when the sum
/// passes 0xFFFF; the zero flag and the low four bits of F stay as they were.
pub proof fn law_add_hl_bc(s: CpuState)
    requires
        ready_for(s, 0x09),
    ensures
        ({
            let r = s.registers;
            let hl = r.h as int * 256 + r.l as int;
            let bc = r.b as int * 256 + r.c as int;
            let t = next_state(s);
            &&& t.registers.h as int * 256 + t.registers.l as int == (hl + bc) % 0x10000
            &&& flag_bit(t.registers.f, 6) == 0
            &&& flag_bit(t.registers.f, 5) == if hl % 4096 + bc % 4096 >= 4096 {
                1u8
            } else {
                0u8
            }
            &&& flag_bit(t.registers.f, 4) == if hl + bc > 0xFFFF {
                1u8
            } else {
                0u8
            }
            &&& forall|k: u8|
                k < 8 && k != 4 && k != 5 && k != 6 ==> #[trigger] flag_bit(t.registers.f, k)
                    == flag_bit(r.f, k)
            &&& t.registers == Registers {
                pc: (r.pc + 1) as u16,
                h: t.registers.h,
                l: t.registers.l,
                f: t.registers.f,
                ..r
            }
            &&& t.memory == s.memory
            &&& t.stall_cycles == 0
        }),
{
    let r = s.registers;
    let hl = word(r.h, r.l);
    let bc = word(r.b, r.c);
    let hc = half_carry_u16(hl, bc);
    let c = hl + bc > 0xFFFF;
    law_flag_set_get(r.f, 4, 4, true);
    assert forall|k: u8| k < 8 implies #[trigger] flag_bit(next_state(s).registers.f, k) == if k
        == 4 {
        if c {
            1u8
        } else {
            0u8
        }
    } else if k == 5 {
        if hc {
            1u8
        } else {
            0u8
        }
    } else if k == 6 {
        0u8
    } else {
        flag_bit(r.f, k)
    } by {
        lemma_three_flags(r.f, 6, false, 5, hc, 4, c, k);
    }
    assert(flag_bit(next_state(s).registers.f, 4) == if c { 1u8 } else { 0u8 });
    assert(flag_bit(next_state(s).registers.f, 5) == if hc { 1u8 } else { 0u8 });
    assert(flag_bit(next_state(s).registers.f, 6) == 0u8);
}


/// A cycle can always run while a stall is pending; otherwise every opcode
/// from 0x00 to 0x09 can run once its operand bytes lie in ROM below
/// 0xFFFF, BC does not overflow on INC BC, and what it stores falls in RAM.
pub proof fn law_accepted_instructions(s: CpuState)
    requires
        ({
            let r = s.registers;
            let m = s.memory;
            let pc = r.pc as int;
            let op = m.rom[pc];
            let bc = r.b as int * 256 + r.c as int;
            let a16 = m.rom[pc + 1] as int + 256 * m.rom[pc + 2] as int;
            ||| s.stall_cycles > 0
            ||| {
                &&& pc < m.rom.len()
                &&& pc < 0xFFFF
                &&& op <= 0x09
                &&& (op == 0x01 || op == 0x06 || op == 0x08) ==> pc + 2 < m.rom.len() && pc + 2
                    < 0xFFFF
                &&& op == 0x02 ==> writable(bc as u16)
                &&& op == 0x03 ==> bc < 0xFFFF
                &&& op == 0x08 ==> writable(a16 as u16) && writable((a16 + 1) as u16)
            }
        }),
    ensures
        can_cycle(s),
{
}

/// At power-on every register is zero.
pub proof fn law_power_on_registers()
    ensures
        zeroed_registers() == (Registers {
            a: 0,
            f: 0,
            b: 0,
            c: 0,
            d: 0,
            e: 0,
            h: 0,
            l: 0,
            sp: 0,
            pc: 0,
        }),
{
}

} // verus!
