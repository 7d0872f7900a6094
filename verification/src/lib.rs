//! A verified interpreter for an 8-bit virtual machine with a 35-instruction
//! opcode set: sixteen byte registers, a 16-bit index register, 4096 bytes of
//! memory with a preloaded glyph font, a 16-entry return stack, two timers, a
//! 64x32 XOR-composited display, and a 16-key input latch.
//!
//! The `model` module defines the machine mathematically; `system` holds the
//! executable interpreter, proved to follow the model one cycle at a time;
//! `ops` decodes instruction words; `laws` proves general properties of the
//! instruction set against the model.

pub mod laws;
pub mod model;
pub mod ops;
pub mod system;
