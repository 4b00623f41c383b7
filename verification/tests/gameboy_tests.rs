use gameboy::gameboy::{Gameboy, GameboyError, MAX_ROM_SIZE};

#[test]
fn read_rom_from_buffer_empty() {
    let mut gb = Gameboy::new();

    let result = gb.read_rom_from_buffer(&[]);

    assert!(matches!(result, Err(GameboyError::EmptyRom)));
    assert_eq!(gb.memory().get_rom().len(), 0);
}

#[test]
fn read_rom_from_buffer_rom_too_large() {
    let mut gb = Gameboy::new();
    let data: Vec<u8> = vec![0; MAX_ROM_SIZE + 1];

    let result = gb.read_rom_from_buffer(data.as_slice());

    assert!(matches!(result, Err(GameboyError::RomTooLarge)));
    assert_eq!(gb.memory().get_rom().len(), 0);
}

#[test]
fn read_rom_from_buffer_valid() {
    let mut gb = Gameboy::new();
    let data = vec![1, 2, 3, 4, 5];

    let result = gb.read_rom_from_buffer(data.as_slice());

    assert!(matches!(result, Ok(())));
    assert_eq!(gb.memory().get_rom(), data);
}

#[test]
fn read_rom_from_buffer_large_rom() {
    let mut gb = Gameboy::new();
    let data: Vec<u8> = vec![1; MAX_ROM_SIZE];

    let result = gb.read_rom_from_buffer(data.as_slice());

    assert!(matches!(result, Ok(())));
    assert_eq!(gb.memory().get_rom(), data);
}
