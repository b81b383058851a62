//! Parsing of ELF64 objects, loading of their segments into a fresh
//! virtual address range, and a small relocation engine.

pub mod addr;
pub mod parse;
pub mod section;
pub mod segment;
pub mod strtab;
pub mod dynamic;
pub mod sym;
pub mod rela;
pub mod elf;
pub mod memory;
pub mod process;
pub mod errors;
pub mod testing;
