//! The two ways in which an instruction can fail.

use vstd::prelude::*;

verus! {

/// A failure that ends the current instruction. Neither kind is retried: the
/// machine is deterministic, so the same state would fail again.
#[derive(Clone, Copy, Debug, PartialEq, Eq, Structural)]
pub enum Chip8Error {
    /// An access to `addr` fell outside the window that its kind of access
    /// allows.
    OutOfBounds { addr: usize },
    /// `opcode` selects no instruction.
    UnknownOpcode { opcode: u16 },
}

} // verus!
