use vstd::prelude::*;

use crate::memory::{Memory, MemoryView, fresh_memory};

verus! {

/// The bus through which the memory is reached.
pub struct DataBus {
    memory: Memory,
}

impl View for DataBus {
    type V = MemoryView;

    closed spec fn view(&self) -> MemoryView {
        self.memory@
    }
}

impl DataBus {
    /// The memory behind the bus keeps the region sizes of `Memory::new`.
    pub open spec fn wf(&self) -> bool {
        self@.well_formed()
    }

    /// A bus in front of a fresh memory.
    pub fn new() -> (bus: DataBus)
        ensures
            bus.wf(),
            bus@ == fresh_memory(),
    {
        DataBus { memory: Memory::new() }
    }

    /// Replaces the ROM behind the bus with `data`.
    pub fn load_rom(&mut self, data: Vec<u8>)
        ensures
            final(self)@ == (MemoryView { rom: data@, ..old(self)@ }),
    {
        self.memory.load_rom(data);
    }

    /// The ROM byte at the program counter `pc`.
    pub fn fetch_next_byte(&self, pc: u16) -> (b: u8)
        requires
            (pc as int) < self@.rom.len(),
        ensures
            b == self@.rom[pc as int],
    {
        self.memory.fetch_byte(pc)
    }
}

} // verus!
