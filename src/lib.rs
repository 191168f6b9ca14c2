//! A CHIP-8 virtual machine: an instruction decoder and a CPU engine whose
//! behaviour is stated as a mathematical transition over a model of the
//! machine state.

pub mod instruction;
pub mod machine;
pub mod chip8;

pub use instruction::{Fault, Instruction};
pub use chip8::Chip8;
pub use machine::{FRAME_SIZE, MEMORY_SIZE, PROGRAM_START_ADDRESS};
