//! A CHIP-8 virtual machine core: a 4 KiB byte store with a memory-mapped
//! 64x32 monochrome display, and the fetch/decode/execute engine that runs
//! on top of it.
//!
//! Every executable function carries a contract over a mathematical model of
//! the machine: a `Memory` is viewed as a `Seq<u8>` of 4096 cells and an
//! `Interpreter` as a `Machine`.
//!
//! - `memory`: the byte store, its regions and big-endian word access.
//! - `display`: pixel geometry of the framebuffer and the RGBA texture that
//!   the host presents.
//! - `sprite`: XOR drawing with clipping and collision detection.
//! - `keyconf`: the sixteen keys of the keypad.
//! - `instruction`: instruction words and their decoding.
//! - `machine`: the model of the CPU and the meaning of each instruction.
//! - `interpreter`: the engine itself.
//! - `laws`: what follows for every program, proved from the model.
//!
//! The host drives the engine: it calls `Interpreter::step` once per
//! instruction, `Interpreter::decrement_timers` sixty times a second and
//! `Interpreter::apply_input` whenever it has sampled the keyboard.
pub mod display;
pub mod instruction;
pub mod interpreter;
pub mod keyconf;
pub mod laws;
pub mod machine;
pub mod memory;
pub mod sprite;
