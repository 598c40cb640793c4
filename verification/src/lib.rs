//! An emulator core for the LC-3, a 16-bit teaching computer with eight
//! general registers, a program counter, a condition register and 65,536
//! words of memory.
//!
//! The core is pure: it loads an image from bytes, carries out one
//! instruction at a time, and hands back the bytes that belong on the console.
//! What the keyboard holds comes in as an argument. Every function is verified
//! against a mathematical model of the machine, [`vm::Machine`].
//!
//! - [`word`]: sums modulo 2^16 and sign extension.
//! - [`vm`]: the registers, the memory and the keyboard registers.
//! - [`decode`]: opcodes and operand fields.
//! - [`instr`]: the executors of the instructions that are not traps.
//! - [`trap`]: the trap service routines.
//! - [`image`]: loading a memory image.
//! - [`driver`]: the fetch-decode-execute cycle.
//! - [`laws`]: what holds of every step.

pub mod decode;
pub mod driver;
pub mod image;
pub mod instr;
pub mod laws;
pub mod trap;
pub mod vm;
pub mod word;
