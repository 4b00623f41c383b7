use vstd::prelude::*;

verus! {

/// Bit masks applied to the flag register `f` to reach each flag bit.
/// Zero flag: bit 7.
pub const ZERO: u8 = 0x80;
/// Subtract flag: bit 6.
pub const SUBTRACT: u8 = 0x40;
/// Half-carry flag: bit 5.
pub const HALF_CARRY: u8 = 0x20;
/// Carry flag: bit 4.
pub const CARRY: u8 = 0x10;

} // verus!
