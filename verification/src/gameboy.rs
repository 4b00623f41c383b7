use vstd::prelude::*;

use crate::cpu::{CPU, CpuState, zeroed_registers};
use crate::memory::{Memory, MemoryView, fresh_memory};

verus! {

/// The largest ROM, in bytes, that the emulator accepts.
pub const MAX_ROM_SIZE: usize = 8000;

/// Makes `std::io::Error` known to Verus as an opaque type, so that a read
/// failure can be carried in `GameboyError`; nothing is claimed of its
/// contents.
#[verifier::external_type_specification]
#[verifier::external_body]
pub struct ExIoError(std::io::Error);

/// Why a ROM could not be loaded.
#[derive(Debug)]
pub enum GameboyError {
    EmptyRom,
    RomTooLarge,
    IOError(std::io::Error),
}

impl GameboyError {
    /// The text that describes the error.
    pub fn message(&self) -> (s: String)
        ensures
            self is EmptyRom ==> s@ == "The ROM file is empty."@,
            self is RomTooLarge ==> s@ == "The ROM file is too large."@,
            self matches GameboyError::IOError(err) ==> vstd::string::to_string_from_display_ensures::<
                std::io::Error,
            >(&err, s),
    {
        match self {
            GameboyError::EmptyRom => "The ROM file is empty.".to_owned(),
            GameboyError::RomTooLarge => "The ROM file is too large.".to_owned(),
            GameboyError::IOError(err) => err.to_string(),
        }
    }
}

/// The console: a CPU wired to its memory.
pub struct Gameboy {
    cpu: CPU,
}

impl View for Gameboy {
    type V = CpuState;

    closed spec fn view(&self) -> CpuState {
        self.cpu@
    }
}

impl Gameboy {
    /// The memory keeps the region sizes of `Memory::new`.
    pub open spec fn wf(&self) -> bool {
        self@.memory.well_formed()
    }

    /// A console whose CPU has every register at zero and whose memory is fresh.
    pub fn new() -> (gb: Gameboy)
        ensures
            gb.wf(),
            gb@ == (CpuState {
                registers: zeroed_registers(),
                memory: fresh_memory(),
                stall_cycles: 0,
            }),
    {
        let memory = Memory::new();
        Gameboy { cpu: CPU::new(memory) }
    }

    /// Read access to the console's memory.
    pub fn memory(&self) -> (m: &Memory)
        ensures
            m@ == self@.memory,
    {
        self.cpu.memory()
    }

    /// Loads the bytes read from a ROM buffer into ROM. An empty buffer and
    /// one of more than `MAX_ROM_SIZE` bytes are refused, and leave the
    /// console as it was.
    pub fn read_rom_from_buffer(&mut self, buffer: &[u8]) -> (r: Result<(), GameboyError>)
        ensures
            r is Ok <==> 0 < buffer@.len() <= MAX_ROM_SIZE,
            r is Ok <==> 1 <= buffer@.len() <= 8000,
            r matches Err(GameboyError::EmptyRom) <==> buffer@.len() == 0,
            r matches Err(GameboyError::RomTooLarge) <==> buffer@.len() > MAX_ROM_SIZE,
            r is Ok ==> final(self)@ == (CpuState {
                memory: MemoryView { rom: buffer@, ..old(self)@.memory },
                ..old(self)@
            }),
            r is Err ==> final(self)@ == old(self)@,
    {
        if buffer.len() == 0 {
            return Err(GameboyError::EmptyRom);
        } else if buffer.len() > MAX_ROM_SIZE {
            return Err(GameboyError::RomTooLarge);
        }
        let mut data: Vec<u8> = Vec::new();
        let mut i: usize = 0;
        while i < buffer.len()
            invariant
                i <= buffer@.len(),
                data@ == buffer@.subrange(0, i as int),
            decreases buffer@.len() - i,
        {
            data.push(buffer[i]);
            i = i + 1;
        }
        assert(data@ =~= buffer@);
        self.cpu.memory_mut().load_rom(data);
        Ok(())
    }
}

} // verus!
