//! A verified interpreter core for an 8-bit byte-code virtual machine:
//! 4096 bytes of memory, sixteen 8-bit registers, a 16-slot call stack,
//! two countdown timers, a 16-key pad and a 64x32 monochrome framebuffer.
//!
//! The machine executes one two-byte instruction per cycle; a host drives
//! the cycle loop, feeds key state in, and reads the framebuffer and the
//! sound timer out. Every state transition is specified by a mathematical
//! step relation and proved against it.

pub mod opcode;
pub mod state;
pub mod step_spec;
pub mod machine;
pub mod exec;
pub mod laws;
pub mod disasm;

pub use machine::chip8;
pub use opcode::OpCode;
pub use state::StepError;
