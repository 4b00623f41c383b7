use gameboy::cpu::{Registers, CPU};
use gameboy::memory::Memory;

// ---- CPU INITIALIZATION TESTS ----
#[test]
fn initialize_registers_cgb() {
    let mut cpu = CPU::new(Memory::new());
    cpu.initialize_registers(false);

    let reg = Registers {
        a: 0x11, f: 0x80, b: 0x00, c: 0x00, d: 0xFF, e: 0x56, h: 0x00, l: 0x0D, pc: 0x0100, sp: 0xFFFE
    };

    assert_eq!(*cpu.registers(), reg);
}

#[test]
fn initialize_registers_dmg() {
    let mut cpu = CPU::new(Memory::new());
    cpu.initialize_registers(true);

    let reg = Registers {
        a: 0x11, f: 0x80, b: 0x00, c: 0x00, d: 0x00, e: 0x08, h: 0x00, l: 0x7C, pc: 0x0100, sp: 0xFFFE
    };

    assert_eq!(*cpu.registers(), reg);
}

// ---- REGISTERS AND FLAGS TESTS ----
#[test]
fn set_get_registers() {
    let mut cpu = CPU::new(Memory::new());

    cpu.set_af(0xAAFF);
    cpu.set_bc(0xBBCC);
    cpu.set_de(0xDDEE);
    cpu.set_hl(0x1122);

    assert_eq!(cpu.get_af(), 0xAAFF);
    assert_eq!(cpu.get_bc(), 0xBBCC);
    assert_eq!(cpu.get_de(), 0xDDEE);
    assert_eq!(cpu.get_hl(), 0x1122);
}

#[test]
fn set_get_flags() {
    let mut cpu = CPU::new(Memory::new());

    cpu.registers_mut().f = 0;

    cpu.set_zero_bit(1);
    assert_eq!(cpu.get_zero_bit(), 1);
    assert_eq!(cpu.get_subtract_bit(), 0);
    assert_eq!(cpu.get_half_carry_bit(), 0);
    assert_eq!(cpu.get_carry_bit(), 0);

    cpu.registers_mut().f = 0;

    cpu.set_subtract_bit(1);
    assert_eq!(cpu.get_zero_bit(), 0);
    assert_eq!(cpu.get_subtract_bit(), 1);
    assert_eq!(cpu.get_half_carry_bit(), 0);
    assert_eq!(cpu.get_carry_bit(), 0);

    cpu.registers_mut().f = 0;

    cpu.set_half_carry_bit(1);
    assert_eq!(cpu.get_zero_bit(), 0);
    assert_eq!(cpu.get_subtract_bit(), 0);
    assert_eq!(cpu.get_half_carry_bit(), 1);
    assert_eq!(cpu.get_carry_bit(), 0);

    cpu.registers_mut().f = 0;

    cpu.set_carry_bit(1);
    assert_eq!(cpu.get_zero_bit(), 0);
    assert_eq!(cpu.get_subtract_bit(), 0);
    assert_eq!(cpu.get_half_carry_bit(), 0);
    assert_eq!(cpu.get_carry_bit(), 1);
}

// ---- BINARY ARITHMETIC CARRY AND BORROW TESTS ----
// *** 8-bit arithmetic ***
// Half-carry tests
// Case 1: Half carry occurs
#[test]
fn half_carry_u8_carry_occurs() {
    let operand1 = 0b1111; // 15
    let operand2 = 0b0100; // 8
    assert!(CPU::check_for_half_carry_u8(operand1, operand2));
}

// Case 2: Half carry does not occur
#[test]
fn half_carry_u8_no_carry() {
    let operand1 = 0b00001010; // 10
    let operand2 = 0b00000101; // 5
    assert!(!CPU::check_for_half_carry_u8(operand1, operand2));
}

// Borrow tests
// Case 1: Borrow occurs
#[test]
fn borrow_u8_borrow_occurs() {
    let operand1 = 0b0001; // 1
    let operand2 = 0b1111; // 15
    assert!(CPU::check_for_borrow_u8(operand1, operand2));
}

// Case 2: Borrow does not occur
#[test]
fn borrow_u8_no_borrow() {
    let operand1 = 0b1111; // 15
    let operand2 = 0b0001; // 1
    assert!(!CPU::check_for_borrow_u8(operand1, operand2));
}

// ** 16-bit arithmetic **
// Case 1: Half carry occurs
#[test]
fn check_for_half_carry_u16() {
    let operand1 = 0b111111111111; // 4095
    let operand2 = 0b100000000000; // 2048
    assert!(CPU::check_for_half_carry_u16(operand1, operand2));
}

// Case 2: Half carry does not occur
#[test]
fn half_carry_u16() {
    let operand1 = 0b1000000000000000;
    let operand2 = 0b0100000000000000;
    assert!(!CPU::check_for_half_carry_u16(operand1, operand2));
}
