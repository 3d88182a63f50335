//! A verified toolchain for the Synacor 16-bit virtual architecture: a
//! fetch/decode/execute core over a flat word memory, an assembler from a
//! line-oriented mnemonic language to the binary image format, and a
//! disassembler back to text.

pub mod compiler;
pub mod data;
pub mod decompiler;
pub mod errors;
pub mod headers;
pub mod image;
pub mod laws;
pub mod numbers;
pub mod parser;
pub mod roundtrip;
pub mod vm;
