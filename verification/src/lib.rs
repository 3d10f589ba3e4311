//! An 8-bit AVR-style microcontroller core: a decoder for fixed-width binary
//! instruction words, a fetch-decode-execute engine over an in-memory machine
//! state, and a small assembler front end (tokenizer and two-phase parser).

pub mod cpu;
pub mod instructions;
pub mod lex;
pub mod parse;
