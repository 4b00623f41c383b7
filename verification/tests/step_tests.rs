use gameboy::cpu::CPU;
use gameboy::databus::DataBus;
use gameboy::gameboy::GameboyError;
use gameboy::memory::Memory;

fn cpu_with_rom(rom: Vec<u8>) -> CPU {
    let mut memory = Memory::new();
    memory.load_rom(rom);
    CPU::new(memory)
}

#[test]
fn nop_takes_four_cycles() {
    let mut cpu = cpu_with_rom(vec![0x00, 0x04]);
    cpu.cycle();
    assert_eq!(cpu.registers().pc, 1);
    for _ in 0..3 {
        cpu.cycle();
        assert_eq!(cpu.registers().pc, 1);
        assert_eq!(cpu.registers().b, 0);
    }
    cpu.cycle();
    assert_eq!(cpu.registers().pc, 2);
    assert_eq!(cpu.registers().b, 1);
}

#[test]
fn ld_bc_n16_is_little_endian() {
    let mut cpu = cpu_with_rom(vec![0x01, 0x34, 0x12]);
    cpu.cycle();
    assert_eq!(cpu.get_bc(), 0x1234);
    assert_eq!(cpu.registers().b, 0x12);
    assert_eq!(cpu.registers().c, 0x34);
    assert_eq!(cpu.registers().pc, 3);
}

#[test]
fn ld_bc_n16_stalls_eleven_cycles() {
    let mut cpu = cpu_with_rom(vec![0x01, 0x34, 0x12, 0x04]);
    cpu.cycle();
    for _ in 0..11 {
        cpu.cycle();
        assert_eq!(cpu.registers().pc, 3);
    }
    cpu.cycle();
    assert_eq!(cpu.registers().pc, 4);
    assert_eq!(cpu.registers().b, 0x13);
}

#[test]
fn inc_b_sets_half_carry_and_clears_subtract() {
    let mut cpu = cpu_with_rom(vec![0x04]);
    cpu.registers_mut().b = 0x0F;
    cpu.registers_mut().f = 0x40 | 0x10; // subtract and carry set
    cpu.cycle();
    assert_eq!(cpu.registers().b, 0x10);
    assert_eq!(cpu.get_zero_bit(), 0);
    assert_eq!(cpu.get_subtract_bit(), 0);
    assert_eq!(cpu.get_half_carry_bit(), 1);
    assert_eq!(cpu.get_carry_bit(), 1);
    assert_eq!(cpu.registers().pc, 1);
}

#[test]
fn inc_b_wraps_to_zero() {
    let mut cpu = cpu_with_rom(vec![0x04]);
    cpu.registers_mut().b = 0xFF;
    cpu.cycle();
    assert_eq!(cpu.registers().b, 0x00);
    assert_eq!(cpu.get_zero_bit(), 1);
    assert_eq!(cpu.get_half_carry_bit(), 1);
    assert_eq!(cpu.get_carry_bit(), 0);
}

#[test]
fn dec_b_sets_subtract_and_borrow() {
    let mut cpu = cpu_with_rom(vec![0x05]);
    cpu.registers_mut().b = 0x10;
    cpu.cycle();
    assert_eq!(cpu.registers().b, 0x0F);
    assert_eq!(cpu.get_zero_bit(), 0);
    assert_eq!(cpu.get_subtract_bit(), 1);
    assert_eq!(cpu.get_half_carry_bit(), 1);
}

#[test]
fn dec_b_to_zero() {
    let mut cpu = cpu_with_rom(vec![0x05]);
    cpu.registers_mut().b = 0x01;
    cpu.cycle();
    assert_eq!(cpu.registers().b, 0x00);
    assert_eq!(cpu.get_zero_bit(), 1);
    assert_eq!(cpu.get_subtract_bit(), 1);
    assert_eq!(cpu.get_half_carry_bit(), 0);
}

#[test]
fn inc_then_dec_restores_b() {
    let mut cpu = cpu_with_rom(vec![0x04, 0x05]);
    cpu.registers_mut().b = 0xFF;
    cpu.cycle();
    cpu.cycle();
    assert_eq!(cpu.registers().b, 0xFF);
    assert_eq!(cpu.registers().pc, 2);
}

#[test]
fn ld_b_n8() {
    let mut cpu = cpu_with_rom(vec![0x06, 0xAB]);
    cpu.cycle();
    assert_eq!(cpu.registers().b, 0xAB);
    assert_eq!(cpu.registers().pc, 2);
}

#[test]
fn inc_bc() {
    let mut cpu = cpu_with_rom(vec![0x03]);
    cpu.set_bc(0x12FF);
    cpu.cycle();
    assert_eq!(cpu.get_bc(), 0x1300);
    assert_eq!(cpu.registers().pc, 1);
}

#[test]
fn rlca_moves_bit_seven_to_carry() {
    let mut cpu = cpu_with_rom(vec![0x07, 0x07]);
    cpu.registers_mut().a = 0b1000_0001;
    cpu.cycle();
    assert_eq!(cpu.registers().a, 0b0000_0011);
    assert_eq!(cpu.get_carry_bit(), 1);
    cpu.cycle();
    assert_eq!(cpu.registers().a, 0b0000_0110);
    assert_eq!(cpu.get_carry_bit(), 0);
}

#[test]
fn ld_bc_a_and_ld_a16_sp_run() {
    let mut cpu = cpu_with_rom(vec![0x02, 0x08, 0x00, 0xC0]);
    cpu.set_bc(0xFF80);
    cpu.registers_mut().a = 0x42;
    cpu.registers_mut().sp = 0xBEEF;
    cpu.cycle();
    assert_eq!(cpu.registers().pc, 1);
    for _ in 0..7 {
        cpu.cycle();
    }
    cpu.cycle();
    assert_eq!(cpu.registers().pc, 4);
    assert_eq!(cpu.get_bc(), 0xFF80);
    assert_eq!(cpu.registers().sp, 0xBEEF);
    assert_eq!(cpu.memory().get_rom(), vec![0x02, 0x08, 0x00, 0xC0]);
}

#[test]
fn add_hl_bc_adds_into_hl() {
    let mut cpu = cpu_with_rom(vec![0x09]);
    cpu.set_bc(0x1111);
    cpu.set_hl(0x2222);
    cpu.registers_mut().f = 0x80 | 0x40; // zero and subtract set
    cpu.cycle();
    assert_eq!(cpu.get_hl(), 0x3333);
    assert_eq!(cpu.get_bc(), 0x1111);
    assert_eq!(cpu.get_zero_bit(), 1);
    assert_eq!(cpu.get_subtract_bit(), 0);
    assert_eq!(cpu.get_half_carry_bit(), 0);
    assert_eq!(cpu.get_carry_bit(), 0);
    assert_eq!(cpu.registers().pc, 1);
}

#[test]
fn add_hl_bc_half_carry_and_carry() {
    let mut cpu = cpu_with_rom(vec![0x09, 0x09]);
    cpu.set_bc(0x0801);
    cpu.set_hl(0x0800);
    cpu.cycle();
    assert_eq!(cpu.get_hl(), 0x1001);
    assert_eq!(cpu.get_half_carry_bit(), 1);
    assert_eq!(cpu.get_carry_bit(), 0);
    cpu.set_bc(0xF000);
    cpu.cycle();
    assert_eq!(cpu.get_hl(), 0x0001);
    assert_eq!(cpu.get_half_carry_bit(), 0);
    assert_eq!(cpu.get_carry_bit(), 1);
    assert_eq!(cpu.get_zero_bit(), 0);
}

#[test]
fn add_u8_and_sub_u8_results() {
    let mut cpu = CPU::new(Memory::new());
    cpu.registers_mut().f = 0x10;
    assert_eq!(cpu.add_u8(0xF0, 0x20), 0x10);
    assert_eq!(cpu.get_zero_bit(), 0);
    assert_eq!(cpu.get_carry_bit(), 1);
    assert_eq!(cpu.add_u8(0x80, 0x80), 0x00);
    assert_eq!(cpu.get_zero_bit(), 1);
    assert_eq!(cpu.sub_u8(0x00, 0x01), 0xFF);
    assert_eq!(cpu.get_subtract_bit(), 1);
    assert_eq!(cpu.get_half_carry_bit(), 1);
    assert_eq!(cpu.get_zero_bit(), 0);
    assert_eq!(cpu.get_carry_bit(), 1);
}

#[test]
fn clearing_a_flag_leaves_the_others() {
    let mut cpu = CPU::new(Memory::new());
    cpu.registers_mut().f = 0xFF;
    cpu.set_half_carry_bit(0);
    assert_eq!(cpu.registers().f, 0xDF);
    cpu.set_zero_bit(2);
    assert_eq!(cpu.registers().f, 0x5F);
    assert_eq!(cpu.get_subtract_bit(), 1);
    assert_eq!(cpu.get_carry_bit(), 1);
}

#[test]
fn set_af_splits_high_and_low() {
    let mut cpu = CPU::new(Memory::new());
    cpu.set_af(0x1280);
    assert_eq!(cpu.registers().a, 0x12);
    assert_eq!(cpu.registers().f, 0x80);
    assert_eq!(cpu.get_zero_bit(), 1);
}

#[test]
fn initialized_flags_only_zero() {
    let mut cpu = CPU::new(Memory::new());
    cpu.initialize_registers(false);
    assert_eq!(cpu.get_zero_bit(), 1);
    assert_eq!(cpu.get_subtract_bit(), 0);
    assert_eq!(cpu.get_half_carry_bit(), 0);
    assert_eq!(cpu.get_carry_bit(), 0);
}

#[test]
fn half_carry_u16_edges() {
    assert!(!CPU::check_for_half_carry_u16(0x0FFF, 0x0000));
    assert!(CPU::check_for_half_carry_u16(0x0FFF, 0x0001));
    assert!(!CPU::check_for_half_carry_u16(0xF800, 0x07FF));
}

#[test]
fn memory_writes_to_each_region() {
    let mut memory = Memory::new();
    memory.write(0xFF80, 1);
    memory.write(0xFFFE, 2);
    memory.write(0xA000, 3);
    memory.write(0xBFFE, 4);
    memory.write(0xBFFF, 5);
    memory.write(0xC000, 6);
    memory.write(0xDFFE, 7);
    memory.write(0xDFFF, 8);
    assert_eq!(memory.get_rom().len(), 0);
}

#[test]
fn databus_fetches_rom_bytes() {
    let mut bus = DataBus::new();
    bus.load_rom(vec![7, 8, 9]);
    assert_eq!(bus.fetch_next_byte(0), 7);
    assert_eq!(bus.fetch_next_byte(2), 9);
}

#[test]
fn error_messages() {
    assert_eq!(GameboyError::EmptyRom.message(), "The ROM file is empty.");
    assert_eq!(GameboyError::RomTooLarge.message(), "The ROM file is too large.");
    let io = std::io::Error::new(std::io::ErrorKind::NotFound, "no such rom");
    assert_eq!(GameboyError::IOError(io).message(), "no such rom");
}
