use vstd::prelude::*;

verus! {

/// Why a step could not be carried out. A step that faults leaves the
/// machine exactly as it found it.
#[derive(Clone, Copy, Debug, PartialEq, Eq)]
pub enum Fault {
    /// The program counter does not leave room for a two-byte instruction
    /// word inside memory.
    PcOutOfBounds { address: u16 },
    /// The instruction word at `address` matches no defined pattern.
    UnknownOpcode { opcode: u16, address: u16 },
    /// A call was made with all sixteen stack slots in use.
    StackOverflow,
    /// A return was made with no call outstanding.
    StackUnderflow,
    /// The index register points an instruction at bytes past the end of
    /// memory.
    MemoryOutOfBounds,
    /// A key instruction found a value above 15 in its register.
    KeyOutOfRange,
}

/// Why the machine turned away what a caller handed it. A call that is
/// turned away changes nothing.
#[derive(Clone, Copy, Debug, PartialEq, Eq)]
pub enum Rejection {
    /// A program of `len` bytes does not fit between the program origin
    /// and the end of memory.
    ProgramTooLong { len: usize },
    /// The keypad has no key `idx`.
    NoSuchKey { idx: usize },
}

} // verus!
