//! A CHIP-8 interpreter core: memory, registers, the call stack, the
//! monochrome display and the keypad, together with the fetch / decode /
//! execute cycle over the 35 standard CHIP-8 instructions, the behavioral
//! quirks of `Chip8Config`, and the 60 Hz frame (ten steps, one timer tick)
//! with its scaled framebuffer. Opcodes outside the instruction set decode
//! as `Instruction::Unknown`.

pub mod config;
pub mod constants;
pub mod cpu;
pub mod execute_laws;
pub mod frame;
pub mod instruction;
pub mod laws;
pub mod opcode_laws;
pub mod sprite;

pub use config::Chip8Config;
pub use cpu::Chip8;
pub use instruction::Instruction;
