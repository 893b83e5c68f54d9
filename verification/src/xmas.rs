//! What this crate takes on trust from `xmas_elf`.
//!
//! Nothing in this file is proved. Each item says what it claims of the code
//! it stands for.

use vstd::prelude::*;
use crate::elf::{elf_type_of, ElfType};

verus! {

/// The permission bits of a segment, `xmas_elf::program::Flags`.
///
/// The type is only named here. Values of it are carried from a program header
/// to the segment descriptor made of it and never looked into.
#[verifier::external_type_specification]
#[verifier::external_body]
pub struct ExFlags(xmas_elf::program::Flags);

/// Classifies the `e_type` field of an ELF header with
/// `xmas_elf::header::Type_::as_type`.
///
/// The contract restates that function's six-way case distinction: the values
/// 0 to 4 are the five kinds the ELF format names, and every other value is
/// processor specific and kept as it is.
#[verifier::external_body]
pub(crate) fn classify_file_type(raw: u16) -> (kind: ElfType)
    ensures
        kind == elf_type_of(raw),
{
    match xmas_elf::header::Type_(raw).as_type() {
        xmas_elf::header::Type::None => ElfType::NoType,
        xmas_elf::header::Type::Relocatable => ElfType::Relocatable,
        xmas_elf::header::Type::Executable => ElfType::Executable,
        xmas_elf::header::Type::SharedObject => ElfType::SharedObject,
        xmas_elf::header::Type::Core => ElfType::Core,
        xmas_elf::header::Type::ProcessorSpecific(code) => ElfType::ProcessorSpecific(code),
    }
}

} // verus!
