//! Reading and validating the headers of 64-bit ELF object files.

pub mod elf;
pub mod inputs;
pub mod loader;
pub mod text;
pub mod util;
