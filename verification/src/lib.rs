//! Loader-facing information about a decoded ELF binary.
//!
//! A byte-level decoder produces a [`ParsedElf`]: the header fields and the
//! program-header table of one file. [`ELFParser`] wraps such a value together
//! with the base address chosen for it and hands out what a loader needs, every
//! address already rebased: the entry point, the address of the program-header
//! table, the loadable segments and the auxiliary-vector entries.

pub mod auxv;
pub mod elf;
pub mod error;
pub mod info;
pub mod xmas;

pub use auxv::{AuxEntry, AuxType};
pub use elf::{ElfType, ParsedElf, ProgramHeader, SegmentType};
pub use error::ElfError;
pub use info::{ELFParser, ELFPH};
