use vstd::prelude::*;

verus! {

/// First address of the 127 bytes of High RAM.
pub const HRAM_START: u16 = 0xFF80;
/// Last address of High RAM.
pub const HRAM_END: u16 = 0xFFFE;
/// First address of the cartridge's external RAM (8 KiB on a Game Boy Colour cartridge).
pub const EXTERN_RAM_START: u16 = 0xA000;
/// Last address of external RAM.
pub const EXTERN_RAM_END: u16 = 0xBFFF;
/// First address of Work RAM (a fixed 4 KiB unit and switchable banks).
pub const WRAM_START: u16 = 0xC000;
/// Last address of Work RAM.
pub const WRAM_END: u16 = 0xDFFF;

/// Number of bytes held for High RAM.
pub const HRAM_SIZE: usize = 127;
/// Number of bytes held for external RAM: 8 KiB, `EXTERN_RAM_START..=EXTERN_RAM_END`.
pub const EXTERN_RAM_SIZE: usize = 0x2000;
/// Number of bytes held for Work RAM: `WRAM_START..=WRAM_END`.
pub const WRAM_SIZE: usize = 0x2000;

/// The contents of a `Memory`: the cartridge ROM and the three RAM regions.
pub struct MemoryView {
    pub rom: Seq<u8>,
    pub hram: Seq<u8>,
    pub external_ram: Seq<u8>,
    pub ram: Seq<u8>,
}

/// `addr` falls in High RAM, 0xFF80..=0xFFFE.
pub open spec fn in_hram(addr: u16) -> bool {
    HRAM_START <= addr <= HRAM_END
}

/// `addr` falls in external RAM, 0xA000..=0xBFFF.
pub open spec fn in_external_ram(addr: u16) -> bool {
    EXTERN_RAM_START <= addr <= EXTERN_RAM_END
}

/// `addr` falls in Work RAM, 0xC000..=0xDFFF.
pub open spec fn in_work_ram(addr: u16) -> bool {
    WRAM_START <= addr <= WRAM_END
}

/// `addr` lies in one of the RAM regions that `write` stores to.
pub open spec fn writable(addr: u16) -> bool {
    in_hram(addr) || in_external_ram(addr) || in_work_ram(addr)
}

impl MemoryView {
    /// Every RAM region has the size that `Memory::new` gives it.
    pub open spec fn well_formed(self) -> bool {
        &&& self.hram.len() == HRAM_SIZE
        &&& self.external_ram.len() == EXTERN_RAM_SIZE
        &&& self.ram.len() == WRAM_SIZE
    }

    /// The memory after `value` is stored at `addr`, by the memory map.
    pub open spec fn store(self, addr: u16, value: u8) -> MemoryView {
        if in_hram(addr) {
            MemoryView { hram: self.hram.update(addr - HRAM_START, value), ..self }
        } else if in_external_ram(addr) {
            MemoryView {
                external_ram: self.external_ram.update(addr - EXTERN_RAM_START, value),
                ..self
            }
        } else if in_work_ram(addr) {
            MemoryView { ram: self.ram.update(addr - WRAM_START, value), ..self }
        } else {
            self
        }
    }

    /// The byte held for the RAM address `addr`, by the memory map.
    pub open spec fn load(self, addr: u16) -> u8 {
        if in_hram(addr) {
            self.hram[addr - HRAM_START]
        } else if in_external_ram(addr) {
            self.external_ram[addr - EXTERN_RAM_START]
        } else if in_work_ram(addr) {
            self.ram[addr - WRAM_START]
        } else {
            0
        }
    }
}

/// A store to a writable address is seen by a later load of that address,
/// leaves every other writable address as it was, and leaves the ROM and
/// the region sizes alone.
pub proof fn law_load_after_store(m: MemoryView, addr: u16, other: u16, value: u8)
    requires
        m.well_formed(),
        writable(addr),
        writable(other),
    ensures
        m.store(addr, value).well_formed(),
        m.store(addr, value).rom == m.rom,
        m.store(addr, value).load(addr) == value,
        other != addr ==> m.store(addr, value).load(other) == m.load(other),
{
}

/// A memory with no ROM loaded and every RAM byte at zero.
pub open spec fn fresh_memory() -> MemoryView {
    MemoryView {
        rom: Seq::empty(),
        hram: Seq::new(HRAM_SIZE as nat, |i: int| 0u8),
        external_ram: Seq::new(EXTERN_RAM_SIZE as nat, |i: int| 0u8),
        ram: Seq::new(WRAM_SIZE as nat, |i: int| 0u8),
    }
}

/// A fresh memory has no ROM, and every RAM address, in each of the three
/// windows, reads 0.
pub proof fn law_fresh_memory_is_zeroed(addr: u16)
    requires
        writable(addr),
    ensures
        fresh_memory().well_formed(),
        fresh_memory().rom.len() == 0,
        fresh_memory().load(addr) == 0,
        in_hram(addr) ==> (addr - HRAM_START) < fresh_memory().hram.len(),
        in_external_ram(addr) ==> (addr - EXTERN_RAM_START) < fresh_memory().external_ram.len(),
        in_work_ram(addr) ==> (addr - WRAM_START) < fresh_memory().ram.len(),
{
}

/// The emulated memory: the loaded cartridge ROM and the writable RAM regions.
pub struct Memory {
    rom: Vec<u8>,
    hram: Vec<u8>,
    external_ram: Vec<u8>,
    ram: Vec<u8>,
}

impl View for Memory {
    type V = MemoryView;

    closed spec fn view(&self) -> MemoryView {
        MemoryView {
            rom: self.rom@,
            hram: self.hram@,
            external_ram: self.external_ram@,
            ram: self.ram@,
        }
    }
}

impl Memory {
    /// The region sizes are those of `Memory::new`.
    pub open spec fn wf(&self) -> bool {
        self@.well_formed()
    }

    /// An empty ROM and zeroed RAM regions.
    pub fn new() -> (m: Memory)
        ensures
            m.wf(),
            m@ == fresh_memory(),
    {
        let m = Memory {
            rom: Vec::new(),
            hram: vec![0u8; HRAM_SIZE],
            external_ram: vec![0u8; EXTERN_RAM_SIZE],
            ram: vec![0u8; WRAM_SIZE],
        };
        assert(m@.hram =~= Seq::new(HRAM_SIZE as nat, |i: int| 0u8));
        assert(m@.external_ram =~= Seq::new(EXTERN_RAM_SIZE as nat, |i: int| 0u8));
        assert(m@.ram =~= Seq::new(WRAM_SIZE as nat, |i: int| 0u8));
        m
    }

    /// Replaces the ROM with `data`; the RAM is left as it was.
    pub fn load_rom(&mut self, data: Vec<u8>)
        ensures
            final(self)@ == (MemoryView { rom: data@, ..old(self)@ }),
    {
        self.rom = data;
    }

    /// A copy of the ROM.
    pub fn get_rom(&self) -> (r: Vec<u8>)
        ensures
            r@ == self@.rom,
    {
        let r = self.rom.clone();
        assert(r@ =~= self.rom@);
        r
    }

    /// The ROM byte at `index`.
    pub fn fetch_byte(&self, index: u16) -> (b: u8)
        requires
            (index as int) < self@.rom.len(),
        ensures
            b == self@.rom[index as int],
    {
        self.rom[index as usize]
    }

    /// Stores `value` at the RAM address `addr`, by the memory map.
    pub fn write(&mut self, addr: u16, value: u8)
        requires
            old(self).wf(),
            writable(addr),
        ensures
            final(self).wf(),
            final(self)@ == old(self)@.store(addr, value),
    {
        if addr >= HRAM_START && addr <= HRAM_END {
            self.hram.set((addr - HRAM_START) as usize, value);
        } else if addr >= EXTERN_RAM_START && addr <= EXTERN_RAM_END {
            self.external_ram.set((addr - EXTERN_RAM_START) as usize, value);
        } else if addr >= WRAM_START && addr <= WRAM_END {
            self.ram.set((addr - WRAM_START) as usize, value);
        }
    }
}

} // verus!
