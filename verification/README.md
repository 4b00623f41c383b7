# gameboy

The core of a Game Boy emulator, written in Verus.

- `src/memory.rs`: the memory map (cartridge ROM, High RAM, external RAM,
  Work RAM), modelled as `MemoryView`, with the law that a store is seen by a
  later load and disturbs nothing else.
- `src/cpu.rs`: the registers, register pairs, flag bits, 8-bit and 16-bit
  carry checks, and `CPU::cycle`, whose contract is the transition
  `next_state` over `CpuState`; the laws on register pairs, flags, stalls and
  instruction timing are proof functions there.
- `src/databus.rs`: the bus in front of the memory.
- `src/gameboy.rs`: the console, and the size rules for loading a ROM.
- `app/main.rs`: the command-line program, which reads the ROM file.
