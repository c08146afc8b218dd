use vstd::prelude::*;

verus! {

/// The faults the virtual machine reports to its host instead of aborting:
/// a program image that does not fit the load window, an opcode bit pattern
/// outside the instruction table, a memory access outside the 4096-byte
/// address space, and call-stack depth violations.
#[derive(Clone, Copy, Debug, PartialEq, Eq, Structural)]
pub enum Chip8Error {
    /// The program image exceeds the 0xE00 bytes available at 0x200.
    ProgramTooLarge,
    /// The fetched word matches no pattern of the instruction table.
    UnknownOpcode(u16),
    /// A computed memory access lies outside 0x000..0xFFF.
    MemoryOutOfBounds,
    /// A call was issued with the 16-slot return stack already full.
    StackOverflow,
    /// A return was issued with the return stack empty.
    StackUnderflow,
}

} // verus!
