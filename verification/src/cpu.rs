use vstd::prelude::*;

pub mod flag_bit_masks;
pub mod step_laws;

use crate::cpu::flag_bit_masks::{CARRY, HALF_CARRY, SUBTRACT, ZERO};
use crate::memory::{Memory, MemoryView, writable};

verus! {

/// All CPU registers.
///
/// | 16-bit | Hi | Lo |   Name/Function   |
/// |--------|----|----|-------------------|
/// |   AF   | A  | -- |Accumulator & Flags|
/// |   BC   | B  | C  |        BC         |
/// |   DE   | D  | E  |        DE         |
/// |   HL   | H  | L  |        HL         |
/// |   SP   | -- | -- |   Stack Pointer   |
/// |   PC   | -- | -- |  Program Counter  |
#[derive(Debug, Clone, Copy, PartialEq, Eq, Structural)]
pub struct Registers {
    pub a: u8,
    pub f: u8,
    pub b: u8,
    pub c: u8,
    pub d: u8,
    pub e: u8,
    pub h: u8,
    pub l: u8,
    pub sp: u16,
    pub pc: u16,
}

/// The 16-bit value whose high byte is `high` and whose low byte is `low`.
pub open spec fn word(high: u8, low: u8) -> u16 {
    (high as int * 256 + low as int) as u16
}

/// The high byte of a 16-bit value.
pub open spec fn high_byte(value: u16) -> u8 {
    (value / 256) as u8
}

/// The low byte of a 16-bit value.
pub open spec fn low_byte(value: u16) -> u8 {
    (value % 256) as u8
}

/// Bit `n` of `f`, as 0 or 1.
pub open spec fn flag_bit(f: u8, n: u8) -> u8 {
    (f >> n) & 1
}

/// `f` with the bits of `mask` set when `on`, cleared otherwise.
pub open spec fn with_flag(f: u8, mask: u8, on: bool) -> u8 {
    if on {
        f | mask
    } else {
        f & !mask
    }
}

/// A 1 is carried from bit 3 to bit 4 when `a` and `b` are added.
pub open spec fn half_carry_u8(a: u8, b: u8) -> bool {
    a % 16 + b % 16 >= 16
}

/// The low nibble of `b` exceeds that of `a`, so `a - b` borrows from bit 4.
pub open spec fn borrow_u8(a: u8, b: u8) -> bool {
    a % 16 < b % 16
}

/// A 1 is carried from bit 11 to bit 12 when `a` and `b` are added.
pub open spec fn half_carry_u16(a: u16, b: u16) -> bool {
    a % 4096 + b % 4096 >= 4096
}

/// `a + b` modulo 256.
pub open spec fn add_wrap(a: u8, b: u8) -> u8 {
    ((a + b) % 256) as u8
}

/// `a - b` modulo 256.
pub open spec fn sub_wrap(a: u8, b: u8) -> u8 {
    ((a - b + 256) % 256) as u8
}

/// The flag register after the 8-bit addition `a + b`: zero flag from the
/// result, subtract flag cleared, half-carry flag from the low nibbles, carry
/// flag as it was.
pub open spec fn flags_after_add(f: u8, a: u8, b: u8) -> u8 {
    with_flag(
        with_flag(with_flag(f, ZERO, add_wrap(a, b) == 0), SUBTRACT, false),
        HALF_CARRY,
        half_carry_u8(a, b),
    )
}

/// The flag register after the 8-bit subtraction `a - b`: zero flag from the
/// result, subtract flag set, half-carry flag from the borrow of the low
/// nibble, carry flag as it was.
pub open spec fn flags_after_sub(f: u8, a: u8, b: u8) -> u8 {
    with_flag(
        with_flag(with_flag(f, ZERO, sub_wrap(a, b) == 0), SUBTRACT, true),
        HALF_CARRY,
        borrow_u8(a, b),
    )
}

/// Every register at zero.
pub open spec fn zeroed_registers() -> Registers {
    Registers { a: 0, f: 0, b: 0, c: 0, d: 0, e: 0, h: 0, l: 0, sp: 0, pc: 0 }
}

/// The register values after boot, on a Game Boy Colour or, with `dmg_mode`,
/// on an original Game Boy.
pub open spec fn boot_registers(dmg_mode: bool) -> Registers {
    if dmg_mode {
        Registers {
            a: 0x11,
            f: 0x80,
            b: 0x00,
            c: 0x00,
            d: 0x00,
            e: 0x08,
            h: 0x00,
            l: 0x7C,
            sp: 0xFFFE,
            pc: 0x0100,
        }
    } else {
        Registers {
            a: 0x11,
            f: 0x80,
            b: 0x00,
            c: 0x00,
            d: 0xFF,
            e: 0x56,
            h: 0x00,
            l: 0x0D,
            sp: 0xFFFE,
            pc: 0x0100,
        }
    }
}

/// What the CPU holds: its registers, the memory it is wired to, and the
/// number of cycles left before it decodes the next instruction.
pub struct CpuState {
    pub registers: Registers,
    pub memory: MemoryView,
    pub stall_cycles: u8,
}

/// The state after the instruction at `r.pc` in ROM has been decoded and
/// carried out, with the cycles it still occupies in `stall_cycles`.
pub open spec fn execute(r: Registers, m: MemoryView) -> CpuState {
    let pc = r.pc as int;
    let n1 = m.rom[pc + 1];
    let n2 = m.rom[pc + 2];
    let after_opcode = (pc + 1) as u16;
    let after_n8 = (pc + 2) as u16;
    let after_n16 = (pc + 3) as u16;
    let op = m.rom[pc];
    if op == 0x00 {
        // NOP: four cycles in all
        CpuState { registers: Registers { pc: after_opcode, ..r }, memory: m, stall_cycles: 3 }
    } else if op == 0x01 {
        // LD BC,n16: the low byte comes first
        CpuState {
            registers: Registers { pc: after_n16, b: n2, c: n1, ..r },
            memory: m,
            stall_cycles: 11,
        }
    } else if op == 0x02 {
        // LD [BC],A
        CpuState {
            registers: Registers { pc: after_opcode, ..r },
            memory: m.store(word(r.b, r.c), r.a),
            stall_cycles: 7,
        }
    } else if op == 0x03 {
        // INC BC
        let bc = (word(r.b, r.c) + 1) as u16;
        CpuState {
            registers: Registers { pc: after_opcode, b: high_byte(bc), c: low_byte(bc), ..r },
            memory: m,
            stall_cycles: 1,
        }
    } else if op == 0x04 {
        // INC B
        CpuState {
            registers: Registers {
                pc: after_opcode,
                b: add_wrap(r.b, 1),
                f: flags_after_add(r.f, r.b, 1),
                ..r
            },
            memory: m,
            stall_cycles: 0,
        }
    } else if op == 0x05 {
        // DEC B
        CpuState {
            registers: Registers {
                pc: after_opcode,
                b: sub_wrap(r.b, 1),
                f: flags_after_sub(r.f, r.b, 1),
                ..r
            },
            memory: m,
            stall_cycles: 0,
        }
    } else if op == 0x06 {
        // LD B,n8
        CpuState {
            registers: Registers { pc: after_n8, b: n1, ..r },
            memory: m,
            stall_cycles: 1,
        }
    } else if op == 0x07 {
        // RLCA: A is rotated left by one, bit 7 going both to bit 0 and to
        // the carry flag
        CpuState {
            registers: Registers {
                pc: after_opcode,
                a: ((r.a as int * 2) % 256 + r.a as int / 128) as u8,
                f: with_flag(r.f, CARRY, r.a >= 128),
                ..r
            },
            memory: m,
            stall_cycles: 0,
        }
    } else if op == 0x08 {
        // LD [a16],SP: low byte of SP at a16, high byte at a16 + 1
        let addr = word(n2, n1);
        CpuState {
            registers: Registers { pc: after_n16, ..r },
            memory: m.store(addr, low_byte(r.sp)).store((addr + 1) as u16, high_byte(r.sp)),
            stall_cycles: 4,
        }
    } else {
        // ADD HL,BC: HL + BC modulo 0x10000 into HL; subtract flag cleared,
        // half-carry from bit 11, carry out of bit 15; zero flag as it was
        let hl = word(r.h, r.l);
        let bc = word(r.b, r.c);
        let sum = ((hl + bc) % 0x10000) as u16;
        CpuState {
            registers: Registers {
                pc: after_opcode,
                h: high_byte(sum),
                l: low_byte(sum),
                f: with_flag(
                    with_flag(with_flag(r.f, SUBTRACT, false), HALF_CARRY, half_carry_u16(hl, bc)),
                    CARRY,
                    hl + bc > 0xFFFF,
                ),
                ..r
            },
            memory: m,
            stall_cycles: 0,
        }
    }
}

/// The instruction at `r.pc` is one that the CPU decodes, its operands lie in
/// ROM, the program counter does not pass 0xFFFF, and what it writes lands in
/// writable RAM.
pub open spec fn can_execute(r: Registers, m: MemoryView) -> bool {
    let pc = r.pc as int;
    let op = m.rom[pc];
    &&& pc < m.rom.len()
    &&& pc < 0xFFFF
    &&& op <= 0x09
    &&& (op == 0x01 || op == 0x08) ==> pc + 2 < m.rom.len() && pc + 2 < 0xFFFF
    &&& op == 0x06 ==> pc + 1 < m.rom.len() && pc + 1 < 0xFFFF
    &&& op == 0x02 ==> writable(word(r.b, r.c))
    &&& op == 0x03 ==> word(r.b, r.c) < 0xFFFF
    &&& op == 0x08 ==> writable(word(m.rom[pc + 2], m.rom[pc + 1])) && writable(
        (word(m.rom[pc + 2], m.rom[pc + 1]) + 1) as u16,
    )
}

/// One cycle can run from `s`: either it only counts down a stall, or the
/// next instruction can be carried out.
pub open spec fn can_cycle(s: CpuState) -> bool {
    s.stall_cycles > 0 || can_execute(s.registers, s.memory)
}

/// The state after one cycle: a pending stall is counted down, otherwise the
/// next instruction is carried out.
pub open spec fn next_state(s: CpuState) -> CpuState {
    if s.stall_cycles > 0 {
        CpuState { stall_cycles: (s.stall_cycles - 1) as u8, ..s }
    } else {
        execute(s.registers, s.memory)
    }
}

/// The state after `n` cycles.
pub open spec fn run(s: CpuState, n: nat) -> CpuState
    decreases n,
{
    if n == 0 {
        s
    } else {
        run(next_state(s), (n - 1) as nat)
    }
}

pub struct CPU {
    registers: Registers,
    memory: Memory,
    /// Cycles still to skip, so that an instruction takes as many cycles as on hardware.
    stall_cycles: u8,
}

impl View for CPU {
    type V = CpuState;

    closed spec fn view(&self) -> CpuState {
        CpuState { registers: self.registers, memory: self.memory@, stall_cycles: self.stall_cycles }
    }
}

proof fn lemma_word_bits(high: u8, low: u8)
    ensures
        ((high as u16) << 8) | (low as u16) == word(high, low),
{
    assert(((high as u16) << 8) | (low as u16) == (high as u16) * 256 + (low as u16))
        by (bit_vector);
}

proof fn lemma_split_bits(value: u16)
    ensures
        (value >> 8) as u8 == high_byte(value),
        (value & 0x00FF) as u8 == low_byte(value),
{
    assert(value >> 8 == value / 256) by (bit_vector);
    assert(value & 0x00FF == value % 256) by (bit_vector);
}

proof fn lemma_word_split(high: u8, low: u8)
    ensures
        high_byte(word(high, low)) == high,
        low_byte(word(high, low)) == low,
{
}

proof fn lemma_flag_mask_bits(f: u8)
    ensures
        (f & ZERO) >> 7 == flag_bit(f, 7),
        (f & SUBTRACT) >> 6 == flag_bit(f, 6),
        (f & HALF_CARRY) >> 5 == flag_bit(f, 5),
        (f & CARRY) >> 4 == flag_bit(f, 4),
{
    assert((f & 0x80) >> 7 == (f >> 7) & 1) by (bit_vector);
    assert((f & 0x40) >> 6 == (f >> 6) & 1) by (bit_vector);
    assert((f & 0x20) >> 5 == (f >> 5) & 1) by (bit_vector);
    assert((f & 0x10) >> 4 == (f >> 4) & 1) by (bit_vector);
}

impl CPU {
    /// Read access to the registers.
    pub fn registers(&self) -> (r: &Registers)
        ensures
            *r == self@.registers,
    {
        &self.registers
    }

    /// Write access to the registers; what is done through it is what the
    /// CPU's registers hold afterwards.
    pub fn registers_mut(&mut self) -> (r: &mut Registers)
        ensures
            *r == old(self)@.registers,
            final(self)@ == (CpuState { registers: *final(r), ..old(self)@ }),
    {
        &mut self.registers
    }

    /// The memory wired to the CPU keeps the region sizes of `Memory::new`.
    pub open spec fn wf(&self) -> bool {
        self@.memory.well_formed()
    }

    /// A CPU with every register at zero, wired to `mem`, ready to decode.
    pub fn new(mem: Memory) -> (cpu: CPU)
        ensures
            cpu@ == (CpuState { registers: zeroed_registers(), memory: mem@, stall_cycles: 0 }),
    {
        let r = Registers { a: 0, f: 0, b: 0, c: 0, d: 0, e: 0, h: 0, l: 0, sp: 0, pc: 0 };
        CPU { registers: r, memory: mem, stall_cycles: 0 }
    }

    /// Read access to the memory wired to the CPU.
    pub fn memory(&self) -> (m: &Memory)
        ensures
            m@ == self@.memory,
    {
        &self.memory
    }

    /// Write access to the memory wired to the CPU; what is done through it
    /// is what the CPU's memory holds afterwards.
    pub fn memory_mut(&mut self) -> (m: &mut Memory)
        ensures
            m@ == old(self)@.memory,
            final(self)@ == (CpuState { memory: final(m)@, ..old(self)@ }),
    {
        &mut self.memory
    }

    /// Sets the registers to their values after boot.
    pub fn initialize_registers(&mut self, dmg_mode: bool)
        ensures
            final(self)@ == (CpuState { registers: boot_registers(dmg_mode), ..old(self)@ }),
            flag_bit(final(self)@.registers.f, 7) == 1,
            flag_bit(final(self)@.registers.f, 6) == 0,
            flag_bit(final(self)@.registers.f, 5) == 0,
            flag_bit(final(self)@.registers.f, 4) == 0,
    {
        self.registers.a = 0x11;
        self.registers.f = 0x80;  // ZERO=1, SUBTRACT=0, HALF_CARRY=0, CARRY=0
        self.registers.b = 0x00;
        self.registers.c = 0x00;
        self.registers.d = 0xFF;
        self.registers.e = 0x56;
        self.registers.h = 0x00;
        self.registers.l = 0x0D;
        self.registers.pc = 0x0100;
        self.registers.sp = 0xFFFE;

        if dmg_mode {
            self.registers.d = 0x00;
            self.registers.e = 0x08;
            self.registers.h = 0x00;
            self.registers.l = 0x7c;
        }
        assert(((0x80u8 >> 7u8) & 1) == 1 && ((0x80u8 >> 6u8) & 1) == 0 && ((0x80u8 >> 5u8) & 1)
            == 0 && ((0x80u8 >> 4u8) & 1) == 0) by (bit_vector);
    }

    /// The ROM byte at the program counter; the program counter moves past it.
    fn fetch_next_byte(&mut self) -> (byte: u8)
        requires
            (old(self)@.registers.pc as int) < old(self)@.memory.rom.len(),
            old(self)@.registers.pc < 0xFFFF,
        ensures
            byte == old(self)@.memory.rom[old(self)@.registers.pc as int],
            final(self)@ == (CpuState {
                registers: Registers {
                    pc: (old(self)@.registers.pc + 1) as u16,
                    ..old(self)@.registers
                },
                ..old(self)@
            }),
    {
        let byte = self.memory.fetch_byte(self.registers.pc);
        self.registers.pc = self.registers.pc + 1;
        byte
    }

    /// ADD HL,BC: adds BC into HL modulo 0x10000, clears the subtract flag,
    /// sets the half-carry flag from bit 11 and the carry flag from bit 15.
    fn add_hl_bc(&mut self)
        ensures
            final(self)@ == ({
                let r = old(self)@.registers;
                let hl = word(r.h, r.l);
                let bc = word(r.b, r.c);
                let sum = ((hl + bc) % 0x10000) as u16;
                CpuState {
                    registers: Registers {
                        h: high_byte(sum),
                        l: low_byte(sum),
                        f: with_flag(
                            with_flag(
                                with_flag(r.f, SUBTRACT, false),
                                HALF_CARRY,
                                half_carry_u16(hl, bc),
                            ),
                            CARRY,
                            hl + bc > 0xFFFF,
                        ),
                        ..r
                    },
                    ..old(self)@
                }
            }),
    {
        let hl = self.get_hl();
        let bc = self.get_bc();
        let sum = hl.wrapping_add(bc);
        self.set_subtract_bit(0);
        self.set_half_carry_bit(
            if CPU::check_for_half_carry_u16(hl, bc) {
                1
            } else {
                0
            },
        );
        self.set_carry_bit(
            if (hl as u32) + (bc as u32) > 0xFFFF {
                1
            } else {
                0
            },
        );
        self.set_hl(sum);
    }

    /// Runs one T-state: counts down a pending stall, or else fetches,
    /// decodes and carries out the next instruction, and sets the stall to
    /// the cycles that instruction still occupies.
    pub fn cycle(&mut self)
        requires
            old(self).wf(),
            can_cycle(old(self)@),
        ensures
            final(self).wf(),
            final(self)@ == next_state(old(self)@),
    {
        if self.stall_cycles > 0 {
            self.stall_cycles = self.stall_cycles - 1;
            return;
        }
        let ghost r = self.registers;
        let ghost m = self.memory@;
        let opcode = self.fetch_next_byte();

        if opcode == 0x0 {
            // NO-OP, just stalls the cpu for 4 T states
            self.stall_cycles = 3;
        } else if opcode == 0x1 {
            // LD BC,n16
            self.stall_cycles = 11;
            // Gameboy colour is little-endian, lower byte comes first
            let low_byte = self.fetch_next_byte();
            let high_byte = self.fetch_next_byte();
            proof {
                lemma_word_bits(high_byte, low_byte);
                lemma_word_split(high_byte, low_byte);
            }
            let value = ((high_byte as u16) << 8) | low_byte as u16;
            self.set_bc(value);
        } else if opcode == 0x2 {
            // LD [BC], A
            self.stall_cycles = 7;
            let addr = self.get_bc();
            let a = self.registers.a;
            self.memory.write(addr, a);
        } else if opcode == 0x3 {
            // INC BC
            self.stall_cycles = 1;
            let bc = self.get_bc();
            self.set_bc(bc + 1);
        } else if opcode == 0x4 {
            // INC B
            let b = self.registers.b;
            self.registers.b = self.add_u8(b, 1);
        } else if opcode == 0x5 {
            // DEC B
            let b = self.registers.b;
            self.registers.b = self.sub_u8(b, 1);
        } else if opcode == 0x6 {
            // LD B,n8
            self.stall_cycles = 1;
            self.registers.b = self.fetch_next_byte();
        } else if opcode == 0x7 {
            // RLCA: the carry flag is set if bit 7 is 1, as rotating A would carry it out
            let a = self.registers.a;
            proof {
                assert((a >> 7 == 1) == (a >= 128)) by (bit_vector);
                assert((a << 1) | (a >> 7) == ((a as int * 2) % 256 + a as int / 128) as u8)
                    by (bit_vector);
            }
            self.set_carry_bit(a >> 7);
            self.registers.a = (a << 1) | (a >> 7);
        } else if opcode == 0x8 {
            // LD [a16],SP
            self.stall_cycles = 4;
            let low_byte = self.fetch_next_byte();
            let high_byte = self.fetch_next_byte();
            proof {
                lemma_word_bits(high_byte, low_byte);
            }
            let addr = ((high_byte as u16) << 8) | low_byte as u16;
            let sp = self.registers.sp;
            proof {
                lemma_split_bits(sp);
            }
            // truncate the u16 value to u8 to get the low byte
            let sp_low_byte = sp as u8;
            let sp_high_byte = (sp >> 8) as u8;
            proof {
                assert(sp as u8 == (sp & 0x00FF) as u8) by (bit_vector);
            }
            self.memory.write(addr, sp_low_byte);
            self.memory.write(addr + 1, sp_high_byte);
        } else {
            // ADD HL,BC
            assert(opcode == 0x9);
            self.add_hl_bc();
        }
        proof {
            assert(self@ =~= execute(r, m));
        }
    }

    /// Whether a 1 is carried from bit 3 to bit 4 in the 8-bit addition.
    pub fn check_for_half_carry_u8(operand1: u8, operand2: u8) -> (r: bool)
        ensures
            r == half_carry_u8(operand1, operand2),
    {
        proof {
            assert(((operand1 & 0xF) + (operand2 & 0xF) < 32) && ((((operand1 & 0xF) + (operand2
                & 0xF)) as u8 & 0x10 == 0x10) == (operand1 % 16 + operand2 % 16 >= 16)))
                by (bit_vector);
        }
        if (((operand1 & 0xF) + (operand2 & 0xF)) & 0x10) == 0x10 {
            return true;
        }
        false
    }

    /// Whether the low nibble of the 8-bit difference falls below zero.
    pub fn check_for_borrow_u8(operand1: u8, operand2: u8) -> (r: bool)
        ensures
            r == borrow_u8(operand1, operand2),
    {
        proof {
            assert(((operand1 & 0xF) < (operand2 & 0xF)) == (operand1 % 16 < operand2 % 16))
                by (bit_vector);
        }
        if (operand1 & 0xF) < (operand2 & 0xF) {
            return true;
        }
        false
    }

    /// Whether a 1 is carried from bit 11 to bit 12 in the 16-bit addition.
    pub fn check_for_half_carry_u16(operand1: u16, operand2: u16) -> (r: bool)
        ensures
            r == half_carry_u16(operand1, operand2),
    {
        proof {
            assert(((operand1 & 0xFFF) + (operand2 & 0xFFF) < 8192) && (((((operand1 & 0xFFF)
                + (operand2 & 0xFFF)) as u16) as u32 & 0x1000 == 0x1000) == (operand1 % 4096
                + operand2 % 4096 >= 4096))) by (bit_vector);
        }
        if ((operand1 & 0xFFF) + (operand2 & 0xFFF)) as u32 & 0x1000 == 0x1000 {
            return true;
        }
        false
    }

    /// Register pair AF.
    pub fn get_af(&self) -> (r: u16)
        ensures
            r == word(self@.registers.a, self@.registers.f),
    {
        proof {
            lemma_word_bits(self.registers.a, self.registers.f);
        }
        ((self.registers.a as u16) << 8) | (self.registers.f as u16)
    }

    /// Register pair BC.
    pub fn get_bc(&self) -> (r: u16)
        ensures
            r == word(self@.registers.b, self@.registers.c),
    {
        proof {
            lemma_word_bits(self.registers.b, self.registers.c);
        }
        ((self.registers.b as u16) << 8) | (self.registers.c as u16)
    }

    /// Register pair DE.
    pub fn get_de(&self) -> (r: u16)
        ensures
            r == word(self@.registers.d, self@.registers.e),
    {
        proof {
            lemma_word_bits(self.registers.d, self.registers.e);
        }
        ((self.registers.d as u16) << 8) | (self.registers.e as u16)
    }

    /// Register pair HL.
    pub fn get_hl(&self) -> (r: u16)
        ensures
            r == word(self@.registers.h, self@.registers.l),
    {
        proof {
            lemma_word_bits(self.registers.h, self.registers.l);
        }
        ((self.registers.h as u16) << 8) | (self.registers.l as u16)
    }

    /// Sets register pair AF: A takes the high byte, F the low byte.
    pub fn set_af(&mut self, value: u16)
        ensures
            final(self)@ == (CpuState {
                registers: Registers {
                    a: high_byte(value),
                    f: low_byte(value),
                    ..old(self)@.registers
                },
                ..old(self)@
            }),
    {
        proof {
            lemma_split_bits(value);
        }
        self.registers.a = (value >> 8) as u8;
        self.registers.f = (value & 0x00FF) as u8;
    }

    /// Sets register pair BC: B takes the high byte, C the low byte.
    pub fn set_bc(&mut self, value: u16)
        ensures
            final(self)@ == (CpuState {
                registers: Registers {
                    b: high_byte(value),
                    c: low_byte(value),
                    ..old(self)@.registers
                },
                ..old(self)@
            }),
    {
        proof {
            lemma_split_bits(value);
        }
        self.registers.b = (value >> 8) as u8;
        self.registers.c = (value & 0x00FF) as u8;
    }

    /// Sets register pair DE: D takes the high byte, E the low byte.
    pub fn set_de(&mut self, value: u16)
        ensures
            final(self)@ == (CpuState {
                registers: Registers {
                    d: high_byte(value),
                    e: low_byte(value),
                    ..old(self)@.registers
                },
                ..old(self)@
            }),
    {
        proof {
            lemma_split_bits(value);
        }
        self.registers.d = (value >> 8) as u8;
        self.registers.e = (value & 0x00FF) as u8;
    }

    /// Sets register pair HL: H takes the high byte, L the low byte.
    pub fn set_hl(&mut self, value: u16)
        ensures
            final(self)@ == (CpuState {
                registers: Registers {
                    h: high_byte(value),
                    l: low_byte(value),
                    ..old(self)@.registers
                },
                ..old(self)@
            }),
    {
        proof {
            lemma_split_bits(value);
        }
        self.registers.h = (value >> 8) as u8;
        self.registers.l = (value & 0x00FF) as u8;
    }

    /// The zero flag, as 0 or 1.
    pub fn get_zero_bit(&self) -> (r: u8)
        ensures
            r == flag_bit(self@.registers.f, 7),
    {
        proof {
            lemma_flag_mask_bits(self.registers.f);
        }
        (self.registers.f & ZERO) >> 7
    }

    /// The subtract flag, as 0 or 1.
    pub fn get_subtract_bit(&self) -> (r: u8)
        ensures
            r == flag_bit(self@.registers.f, 6),
    {
        proof {
            lemma_flag_mask_bits(self.registers.f);
        }
        (self.registers.f & SUBTRACT) >> 6
    }

    /// The half-carry flag, as 0 or 1.
    pub fn get_half_carry_bit(&self) -> (r: u8)
        ensures
            r == flag_bit(self@.registers.f, 5),
    {
        proof {
            lemma_flag_mask_bits(self.registers.f);
        }
        (self.registers.f & HALF_CARRY) >> 5
    }

    /// The carry flag, as 0 or 1.
    pub fn get_carry_bit(&self) -> (r: u8)
        ensures
            r == flag_bit(self@.registers.f, 4),
    {
        proof {
            lemma_flag_mask_bits(self.registers.f);
        }
        (self.registers.f & CARRY) >> 4
    }

    /// Sets the zero flag when `bit` is 1 and clears it otherwise.
    pub fn set_zero_bit(&mut self, bit: u8)
        ensures
            final(self)@ == (CpuState {
                registers: Registers {
                    f: with_flag(old(self)@.registers.f, ZERO, bit == 1),
                    ..old(self)@.registers
                },
                ..old(self)@
            }),
    {
        if bit == 1 {
            self.registers.f = self.registers.f | ZERO;
        } else {
            self.registers.f = self.registers.f & !ZERO;
        }
    }

    /// Sets the subtract flag when `bit` is 1 and clears it otherwise.
    pub fn set_subtract_bit(&mut self, bit: u8)
        ensures
            final(self)@ == (CpuState {
                registers: Registers {
                    f: with_flag(old(self)@.registers.f, SUBTRACT, bit == 1),
                    ..old(self)@.registers
                },
                ..old(self)@
            }),
    {
        if bit == 1 {
            self.registers.f = self.registers.f | SUBTRACT;
        } else {
            self.registers.f = self.registers.f & !SUBTRACT;
        }
    }

    /// Sets the half-carry flag when `bit` is 1 and clears it otherwise.
    pub fn set_half_carry_bit(&mut self, bit: u8)
        ensures
            final(self)@ == (CpuState {
                registers: Registers {
                    f: with_flag(old(self)@.registers.f, HALF_CARRY, bit == 1),
                    ..old(self)@.registers
                },
                ..old(self)@
            }),
    {
        if bit == 1 {
            self.registers.f = self.registers.f | HALF_CARRY;
        } else {
            self.registers.f = self.registers.f & !HALF_CARRY;
        }
    }

    /// Sets the carry flag when `bit` is 1 and clears it otherwise.
    pub fn set_carry_bit(&mut self, bit: u8)
        ensures
            final(self)@ == (CpuState {
                registers: Registers {
                    f: with_flag(old(self)@.registers.f, CARRY, bit == 1),
                    ..old(self)@.registers
                },
                ..old(self)@
            }),
    {
        if bit == 1 {
            self.registers.f = self.registers.f | CARRY;
        } else {
            self.registers.f = self.registers.f & !CARRY;
        }
    }

    /// 8-bit addition for the CPU's instructions: returns `a + b` modulo 256
    /// and sets the zero, subtract and half-carry flags; the carry flag is
    /// left alone.
    pub fn add_u8(&mut self, a: u8, b: u8) -> (r: u8)
        ensures
            r == add_wrap(a, b),
            final(self)@ == (CpuState {
                registers: Registers {
                    f: flags_after_add(old(self)@.registers.f, a, b),
                    ..old(self)@.registers
                },
                ..old(self)@
            }),
            flag_bit(final(self)@.registers.f, 4) == flag_bit(old(self)@.registers.f, 4),
    {
        let result = a.wrapping_add(b);
        self.set_zero_bit(
            if result == 0 {
                1
            } else {
                0
            },
        );
        self.set_subtract_bit(0);
        self.set_half_carry_bit(
            if CPU::check_for_half_carry_u8(a, b) {
                1
            } else {
                0
            },
        );
        proof {
            lemma_flags_keep_carry(old(self)@.registers.f, result == 0, false, half_carry_u8(a, b));
        }
        result
    }

    /// 8-bit subtraction for the CPU's instructions: returns `a - b` modulo
    /// 256 and sets the zero, subtract and half-carry flags; the carry flag
    /// is left alone.
    pub fn sub_u8(&mut self, a: u8, b: u8) -> (r: u8)
        ensures
            r == sub_wrap(a, b),
            final(self)@ == (CpuState {
                registers: Registers {
                    f: flags_after_sub(old(self)@.registers.f, a, b),
                    ..old(self)@.registers
                },
                ..old(self)@
            }),
            flag_bit(final(self)@.registers.f, 4) == flag_bit(old(self)@.registers.f, 4),
    {
        let result = a.wrapping_sub(b);
        self.set_zero_bit(
            if result == 0 {
                1
            } else {
                0
            },
        );
        self.set_subtract_bit(1);
        self.set_half_carry_bit(
            if CPU::check_for_borrow_u8(a, b) {
                1
            } else {
                0
            },
        );
        proof {
            lemma_flags_keep_carry(old(self)@.registers.f, result == 0, true, borrow_u8(a, b));
        }
        result
    }
}

proof fn lemma_flags_keep_carry(f: u8, z: bool, n: bool, h: bool)
    ensures
        flag_bit(with_flag(with_flag(with_flag(f, ZERO, z), SUBTRACT, n), HALF_CARRY, h), 4)
            == flag_bit(f, 4),
{
    let f1 = with_flag(f, ZERO, z);
    let f2 = with_flag(f1, SUBTRACT, n);
    let f3 = with_flag(f2, HALF_CARRY, h);
    assert(((f | 0x80) >> 4) & 1 == (f >> 4) & 1 && ((f & !0x80u8) >> 4) & 1 == (f >> 4) & 1)
        by (bit_vector);
    assert(((f1 | 0x40) >> 4) & 1 == (f1 >> 4) & 1 && ((f1 & !0x40u8) >> 4) & 1 == (f1 >> 4) & 1)
        by (bit_vector);
    assert(((f2 | 0x20) >> 4) & 1 == (f2 >> 4) & 1 && ((f2 & !0x20u8) >> 4) & 1 == (f2 >> 4) & 1)
        by (bit_vector);
}


/// Splitting a 16-bit value into its high and low bytes and joining them
/// again gives the value back; joining two bytes and splitting the result
/// gives the bytes back. So a register pair reads back what was set.
pub proof fn law_register_pair_round_trip(value: u16, high: u8, low: u8)
    ensures
        word(high_byte(value), low_byte(value)) == value,
        high_byte(word(high, low)) == high,
        low_byte(word(high, low)) == low,
{
}

/// The flag masks are single bits: zero is bit 7, subtract bit 6,
/// half-carry bit 5 and carry bit 4. Setting or clearing bit `n` of the flag
/// register makes that bit read back as 1 or 0 and leaves every other bit as
/// it was.
pub proof fn law_flag_set_get(f: u8, n: u8, k: u8, on: bool)
    requires
        n < 8,
        k < 8,
    ensures
        ZERO == 1u8 << 7u8,
        SUBTRACT == 1u8 << 6u8,
        HALF_CARRY == 1u8 << 5u8,
        CARRY == 1u8 << 4u8,
        flag_bit(with_flag(f, 1u8 << n, on), k) == if k == n {
            if on {
                1u8
            } else {
                0u8
            }
        } else {
            flag_bit(f, k)
        },
{
    assert(0x80u8 == 1u8 << 7u8 && 0x40u8 == 1u8 << 6u8 && 0x20u8 == 1u8 << 5u8 && 0x10u8 == 1u8
        << 4u8) by (bit_vector);
    assert(((f | (1u8 << n)) >> k) & 1 == if k == n {
        1u8
    } else {
        (f >> k) & 1
    }) by (bit_vector)
        requires
            n < 8,
            k < 8,
    ;
    assert(((f & !(1u8 << n)) >> k) & 1 == if k == n {
        0u8
    } else {
        (f >> k) & 1
    }) by (bit_vector)
        requires
            n < 8,
            k < 8,
    ;
}

/// Subtracting what was added gives the operand back, and adding what was
/// subtracted does too: DEC B undoes INC B on register B, and INC B undoes
/// DEC B.
pub proof fn law_add_sub_inverse(a: u8, b: u8)
    ensures
        sub_wrap(add_wrap(a, b), b) == a,
        add_wrap(sub_wrap(a, b), b) == a,
{
}

/// A cycle never changes the ROM and keeps the RAM regions at their sizes.
pub proof fn law_cycle_keeps_rom(s: CpuState)
    requires
        s.memory.well_formed(),
        can_cycle(s),
    ensures
        next_state(s).memory.rom == s.memory.rom,
        next_state(s).memory.well_formed(),
{
}

/// While a stall is pending, cycles only count it down: after as many cycles
/// as are pending, the registers and memory are as they were and the CPU is
/// ready to decode.
pub proof fn law_stall_counts_down(s: CpuState)
    ensures
        run(s, s.stall_cycles as nat) == (CpuState { stall_cycles: 0, ..s }),
    decreases s.stall_cycles,
{
    if s.stall_cycles > 0 {
        let t = next_state(s);
        law_stall_counts_down(t);
        assert(CpuState { stall_cycles: 0, ..t } == CpuState { stall_cycles: 0, ..s });
    }
}

/// An instruction occupies one cycle more than the stall it sets: that many
/// cycles from a CPU ready to decode carry it out and leave the CPU ready to
/// decode again, and no cycle in between changes registers or memory.
pub proof fn law_instruction_cycles(s: CpuState)
    requires
        s.stall_cycles == 0,
    ensures
        run(s, (next_state(s).stall_cycles + 1) as nat) == (CpuState {
            stall_cycles: 0,
            ..execute(s.registers, s.memory)
        }),
{
    law_stall_counts_down(next_state(s));
}

} // verus!
