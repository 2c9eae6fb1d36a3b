//! A CHIP-8 virtual machine: memory, registers, call stack, timers,
//! framebuffer and keypad, driven by a fetch-decode-execute cycle.
//!
//! Every state change is described by a mathematical model ([`Machine`]) and
//! the executable engine is proved to follow it.

pub mod engine;
pub mod font;
pub mod instruction;
pub mod laws;
pub mod model;
mod random;
pub mod sprite;

pub use engine::CHIP8;
pub use instruction::{decode, Instruction};
pub use model::{EngineState, Fault, Machine};
