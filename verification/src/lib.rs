//! RISCulator: an emulator for the RV32I base instruction set.
//!
//! The library models an architectural processor state (a register file, a
//! word-addressable memory, a program counter, a `misa` descriptor and a
//! privilege mode), decodes 32-bit instruction words into effects, and drives
//! the fetch/decode/execute loop until a termination sentinel is reached.

use vstd::prelude::*;

pub mod bits;
pub mod decoder;
pub mod interp;
pub mod loader;
pub mod ram;
pub mod register;
pub mod vproc;

verus! {

/// Width of an instruction word and of every register, in bits.
pub const XLEN: usize = 32;

/// Number of architectural registers.
pub const REG_SIZE: usize = 32;

/// Default number of memory cells.
pub const RAM_SIZE: usize = 100;

/// Default `misa` value, 0x1100: the integer-base bit (8) is set, and so is
/// the multiply-extension bit (12), though only RV32I is interpreted.
pub const MISA_RV32I: u32 = 4352;

} // verus!
