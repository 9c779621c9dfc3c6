//! A verified core for the CHIP-8 virtual machine.
//!
//! The crate holds the parts of an interpreter whose behaviour has to be exact:
//! the bounded memory, the instruction decoder, the semantics of every
//! instruction, the XOR display surface and the two countdown timers. Each
//! executable function carries a contract over the mathematical model in
//! [`model`], and Verus proves the code against it.
//!
//! Rendering, input polling, sound and program loading belong to the host; the
//! core only needs plain values from them (a [`keypad::Keypad`] snapshot, the
//! bytes of a program).
//!
//! - [`memory`]: the 4096 bytes, with the font and the bounds of each access
//! - [`decoder`]: the fields of an instruction word, and the instruction it names
//! - [`display`]: the 64 by 32 pixels and the drawing of sprites by XOR
//! - [`keypad`]: the sixteen keys as the host reports them
//! - [`timers`]: the countdown of the delay and sound timers
//! - [`rng`]: the generator of random bytes
//! - [`model`]: the machine as a mathematical value
//! - [`cpu`]: the machine itself
//! - [`laws`]: theorems about every machine
//! - [`error`]: the two ways in which an instruction can fail

pub mod error;
pub mod decoder;
pub mod memory;
pub mod display;
pub mod keypad;
pub mod timers;
pub mod rng;
pub mod model;
pub mod cpu;
pub mod laws;
