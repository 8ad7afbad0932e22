//! A two-stage assembler for a small word-oriented virtual machine.
//!
//! Source text is translated line by line into an intermediate representation,
//! and a whole program of that representation is encoded into the machine's
//! byte stream: instructions of one to three words of four bytes, with
//! word-relative jumps.
//!
//! - [`ir`]: the intermediate representation and its mathematical views;
//! - [`text`], [`number`], [`operand`], [`translate`]: from source text to the
//!   intermediate representation;
//! - [`opcode`], [`encode`], [`assembler`]: from the intermediate
//!   representation to bytes;
//! - [`laws`]: what holds of every line and every program.

pub mod ir;
pub mod text;
pub mod number;
pub mod operand;
pub mod translate;
pub mod opcode;
pub mod encode;
pub mod assembler;
pub mod laws;
