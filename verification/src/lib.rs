//! A CHIP-8 virtual machine whose instruction semantics are stated as a
//! mathematical model and proved of the executable interpreter.
//!
//! [`Chip8`] is the interpreter. [`Machine`] is its mathematical view, and the
//! spec functions on it say what every operation does.

pub mod chip8;
mod entropy;
pub mod error;
pub mod font;
pub mod instruction;
pub mod keypad;
pub mod laws;
pub mod machine;

pub use chip8::Chip8;
pub use error::{Chip8Error, Outcome};
pub use instruction::{decode, Instruction};
pub use keypad::key_index;
pub use machine::Machine;
