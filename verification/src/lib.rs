//! A CHIP-8 virtual machine with verified decode and execute semantics.
//!
//! The instruction decoder is a pure, total function from 16-bit opcodes to
//! structured instructions, and the machine applies one instruction's effects
//! per tick against a fixed memory, register, stack, and framebuffer model.

pub mod chip8;
pub mod instruction;
pub mod machine;
pub mod platform;
pub mod renderer;

pub use chip8::Chip8;
pub use chip8::Fault;
pub use instruction::Instruction;
