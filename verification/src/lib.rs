//! Matching and encoding core of an x86-64 assembler.
//!
//! Given one textual source line that denotes an instruction, this library
//! determines which entry of an instruction table the line denotes, extracts
//! and classifies its operands (registers, memory references, immediate or
//! relocatable literals), and exposes the encoding metadata needed by a byte
//! encoder.

pub mod instruction;
pub mod line;
pub mod matcher;
pub mod numbers;
pub mod register;
pub mod text;
