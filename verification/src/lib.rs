//! An emulator for the ARMv6-M Thumb instruction set, suitable as the
//! execution engine of a gas-metered, sandboxed runtime.  The crate models
//! sixteen 32-bit registers, the four N/Z/C/V condition flags, a segmented
//! byte-addressable memory, and a decode-and-execute pipeline that steps one
//! instruction at a time.

use vstd::prelude::*;

/// Helper functions used for bit manipulation
pub mod bitmanip;
pub mod decode;
pub mod memory;
pub mod narmvm;
pub mod opcodes;

verus! {

/// Everything that can go wrong while loading memory or executing an
/// instruction.  Each error is fatal to the current execution; the variants
/// carry the faulting address or opcode for diagnostics.
#[derive(PartialEq, Eq, Structural, Debug, Copy, Clone)]
pub enum NarmError {
    /// An unloaded memory area (outside every segment) was read
    UnloadedMemoryRead(u32),
    /// An unloaded memory area (outside every segment) was written
    UnloadedMemoryWrite(u32),
    /// A loaded memory area was read out of bounds of its backing buffer
    EmptyMemoryRead(u32),
    /// A loaded memory area was written out of bounds of its backing buffer
    EmptyMemoryWrite(u32),
    /// A write touched read-only memory
    ReadOnlyMemoryWrite(u32),
    /// `add_memory` was given a base address that is not 4-aligned
    UnalignedMemoryAddition,
    /// `add_memory` was given a range that overlaps an existing segment
    ConflictingMemoryAddition,
    /// No 16-bit encoding form matched the opcode
    InvalidOpcode(u16),
    /// No 32-bit encoding form matched the opcode
    InvalidOpcode32(u32),
    /// The gas counter was exhausted before the instruction completed
    OutOfGas,
    /// A branch target requested non-Thumb execution
    InvalidArchitectureMode,
}

/// This specifies a register beyond r0-r7.
/// It is not strictly necessary to be organized like this, but used to
/// prevent programmer errors.
pub struct LongRegister {
    pub register: usize,
}

} // verus!
