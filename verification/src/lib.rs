//! The Hack translation toolchain: a two-pass symbolic assembler that turns
//! Hack assembly text into 16-bit machine words, and a translator from the
//! stack-oriented VM language into Hack assembly.
//!
//! Every function is verified against a model over `Seq<char>`, `Map` and
//! `nat`. The assembler lives in [`code`], [`symbols`], [`parser`] and
//! [`assembler`], the translator in [`vm`] and [`generator`]; both read
//! their lines with [`text`]. What holds of every run is proved in
//! [`assembly_laws`], [`disassembly`] and [`translation_laws`]. The few
//! items whose contracts are believed rather than proved are gathered in
//! [`trusted`].

pub mod trusted;
pub mod text;
pub mod error;
pub mod code;
pub mod symbols;
pub mod parser;
pub mod assembler;
pub mod assembly_laws;
pub mod disassembly;
pub mod vm;
pub mod generator;
pub mod translation_laws;
