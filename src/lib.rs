//! A toolchain for a 16-bit machine: an assembler from symbolic instructions
//! to binary words, and a translator from a stack language to that assembly.
pub mod text;
pub mod numbers;
pub mod lines;
pub mod asm_parser;
pub mod code;
pub mod symbol_table;
pub mod assembler;
pub mod vm_parser;
pub mod code_writer;
pub mod translator;
pub mod assembler_laws;
pub mod translator_laws;
