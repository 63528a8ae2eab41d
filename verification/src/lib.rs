//! A CHIP-8 virtual machine and a small mnemonic assembler for it.
pub mod assembly;
pub mod chip;
pub mod compiler;
pub mod instruction_laws;
pub mod laws;

pub mod semantics;
