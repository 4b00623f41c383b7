use gameboy::memory::Memory;

#[test]
fn fetch_byte() {
    let mut memory = Memory::new();
    memory.load_rom(vec![1, 2, 3]);

    assert_eq!(memory.fetch_byte(0), 1);
    assert_eq!(memory.fetch_byte(1), 2);
    assert_eq!(memory.fetch_byte(2), 3);
}
