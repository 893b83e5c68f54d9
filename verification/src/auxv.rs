//! Entries of the auxiliary vector handed to a new process image.

use vstd::prelude::*;

verus! {

/// The tags of the auxiliary-vector entries that describe a loaded binary.
#[allow(non_camel_case_types)]
#[derive(Clone, Copy, Debug, PartialEq, Eq, Structural)]
pub enum AuxType {
    /// Address of the program-header table in memory.
    PHDR,
    /// Size in bytes of one program-header table entry.
    PHENT,
    /// Number of program-header table entries.
    PHNUM,
    /// Page size of the system.
    PAGESZ,
    /// Base address of the program interpreter.
    BASE,
    /// Entry point of the program.
    ENTRY,
}

impl AuxType {
    /// The number that the System V process-startup ABI gives to the tag.
    pub open spec fn abi_value(self) -> usize {
        match self {
            AuxType::PHDR => 3,
            AuxType::PHENT => 4,
            AuxType::PHNUM => 5,
            AuxType::PAGESZ => 6,
            AuxType::BASE => 7,
            AuxType::ENTRY => 9,
        }
    }

    /// The tag as the number that is written into the vector.
    pub fn as_usize(self) -> (value: usize)
        ensures
            value == self.abi_value(),
    {
        match self {
            AuxType::PHDR => 3,
            AuxType::PHENT => 4,
            AuxType::PHNUM => 5,
            AuxType::PAGESZ => 6,
            AuxType::BASE => 7,
            AuxType::ENTRY => 9,
        }
    }
}

/// One entry of the auxiliary vector: a tag and the value that goes with it.
#[derive(Clone, Copy, Debug, PartialEq, Eq, Structural)]
pub struct AuxEntry {
    /// What the value describes.
    pub auxv_type: AuxType,
    /// The address or size itself.
    pub auxv_val: usize,
}

impl AuxEntry {
    /// Creates an entry.
    pub fn new(auxv_type: AuxType, auxv_val: usize) -> (entry: AuxEntry)
        ensures
            entry == (AuxEntry { auxv_type, auxv_val }),
    {
        AuxEntry { auxv_type, auxv_val }
    }

    /// The tag of the entry.
    pub fn get_type(&self) -> (tag: AuxType)
        ensures
            tag == self.auxv_type,
    {
        self.auxv_type
    }

    /// The value of the entry.
    pub fn value(&self) -> (value: usize)
        ensures
            value == self.auxv_val,
    {
        self.auxv_val
    }
}

} // verus!
