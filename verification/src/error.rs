//! The ways in which a file can be unfit for loading.

use vstd::prelude::*;

verus! {

/// Why no loader information can be given for a file.
#[derive(Clone, Copy, Debug, PartialEq, Eq, Structural)]
pub enum ElfError {
    /// The file does not start with the four magic bytes of an ELF binary.
    MalformedInput,
    /// No loadable segment holds the file offset of the program-header table.
    InconsistentLayout,
}

impl ElfError {
    /// A short description of the error.
    pub fn message(&self) -> (text: &'static str)
        ensures
            text@ == (match *self {
                ElfError::MalformedInput => "invalid elf!"@,
                ElfError::InconsistentLayout => "can not find program header table address in elf"@,
            }),
    {
        match self {
            ElfError::MalformedInput => "invalid elf!",
            ElfError::InconsistentLayout => "can not find program header table address in elf",
        }
    }
}

} // verus!
