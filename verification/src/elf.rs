//! A decoded ELF file, as far as a loader reads it.

use vstd::prelude::*;
use xmas_elf::program::Flags;
use crate::xmas::classify_file_type;

verus! {

/// The kind of object file, from the `e_type` field of the ELF header.
#[derive(Clone, Copy, Debug, PartialEq, Eq, Structural)]
pub enum ElfType {
    /// No file type.
    NoType,
    /// A relocatable object file.
    Relocatable,
    /// An executable whose addresses are absolute.
    Executable,
    /// A shared object, or an executable that can be loaded at any address.
    SharedObject,
    /// A core dump.
    Core,
    /// Any other value, kept as it stands in the file.
    ProcessorSpecific(u16),
}

/// The kind that a raw `e_type` value stands for.
pub open spec fn elf_type_of(raw: u16) -> ElfType {
    if raw == 0 {
        ElfType::NoType
    } else if raw == 1 {
        ElfType::Relocatable
    } else if raw == 2 {
        ElfType::Executable
    } else if raw == 3 {
        ElfType::SharedObject
    } else if raw == 4 {
        ElfType::Core
    } else {
        ElfType::ProcessorSpecific(raw)
    }
}

/// The kind of a program-header entry, from its `p_type` field.
#[derive(Clone, Copy, Debug, PartialEq, Eq, Structural)]
pub enum SegmentType {
    /// An unused entry.
    Null,
    /// A segment that the loader maps into memory.
    Load,
    /// Dynamic linking information.
    Dynamic,
    /// The path of the program interpreter.
    Interp,
    /// Auxiliary notes.
    Note,
    /// Reserved.
    ShLib,
    /// The program-header table itself.
    Phdr,
    /// The thread-local storage template.
    Tls,
    /// A region to be made read-only after relocation.
    GnuRelro,
    /// A value from the range left to operating systems.
    OsSpecific(u32),
    /// A value from the range left to processors.
    ProcessorSpecific(u32),
    /// A value outside every range the format defines.
    Invalid,
}

/// One entry of the program-header table, with the addresses as the file gives
/// them.
#[derive(Clone, Copy, Debug)]
pub struct ProgramHeader {
    /// The kind of the entry.
    pub kind: SegmentType,
    /// Where the segment starts in the file.
    pub offset: u64,
    /// Where the segment starts in memory, before rebasing.
    pub virtual_addr: u64,
    /// How many bytes of the segment the file holds.
    pub file_size: u64,
    /// How many bytes the segment takes in memory.
    pub mem_size: u64,
    /// The access permissions of the segment.
    pub flags: Flags,
}

impl ProgramHeader {
    /// Whether the entry describes a segment to be mapped.
    pub open spec fn spec_is_load(&self) -> bool {
        self.kind == SegmentType::Load
    }

    /// Whether the entry describes a segment to be mapped.
    #[verifier::when_used_as_spec(spec_is_load)]
    pub fn is_load(&self) -> (load: bool)
        ensures
            load == self.spec_is_load(),
    {
        match self.kind {
            SegmentType::Load => true,
            _ => false,
        }
    }

    /// Whether the bytes that the file holds for the segment include the one at
    /// `file_offset`.
    pub open spec fn spec_covers(&self, file_offset: u64) -> bool {
        self.offset <= file_offset < self.offset + self.file_size
    }

    /// Whether the bytes that the file holds for the segment include the one at
    /// `file_offset`.
    #[verifier::when_used_as_spec(spec_covers)]
    pub fn covers(&self, file_offset: u64) -> (inside: bool)
        ensures
            inside == self.spec_covers(file_offset),
    {
        self.offset <= file_offset && file_offset - self.offset < self.file_size
    }

    /// Whether the file holds no more of the segment than fits into its memory.
    /// What memory is left over, the loader fills with zeros.
    pub open spec fn well_formed(&self) -> bool {
        self.file_size <= self.mem_size
    }
}

/// The header fields and the program-header table of one ELF file.
#[derive(Clone, Debug)]
pub struct ParsedElf {
    /// The first four bytes of the file.
    pub magic: [u8; 4],
    /// The `e_type` field as it stands in the file.
    pub file_type: u16,
    /// The address at which the program starts, before rebasing.
    pub entry_point: u64,
    /// The file offset of the program-header table.
    pub ph_offset: u64,
    /// The size in bytes of one entry of the program-header table.
    pub ph_entry_size: u16,
    /// The number of entries that the header announces.
    pub ph_count: u16,
    /// The entries of the program-header table, in file order.
    pub program_headers: Vec<ProgramHeader>,
}

impl ParsedElf {
    /// Whether the file starts with the bytes `0x7f 'E' 'L' 'F'`.
    pub open spec fn spec_has_magic(&self) -> bool {
        self.magic@ == seq![0x7fu8, 0x45u8, 0x4cu8, 0x46u8]
    }

    /// Whether the file starts with the bytes `0x7f 'E' 'L' 'F'`.
    #[verifier::when_used_as_spec(spec_has_magic)]
    pub fn has_magic(&self) -> (found: bool)
        ensures
            found == self.spec_has_magic(),
    {
        let found = self.magic[0] == 0x7f && self.magic[1] == 0x45 && self.magic[2] == 0x4c
            && self.magic[3] == 0x46;
        proof {
            if found {
                assert(self.magic@ =~= seq![0x7fu8, 0x45u8, 0x4cu8, 0x46u8]);
            }
        }
        found
    }

    /// The kind of object file.
    pub open spec fn spec_kind(&self) -> ElfType {
        elf_type_of(self.file_type)
    }

    /// The kind of object file.
    #[verifier::when_used_as_spec(spec_kind)]
    pub fn kind(&self) -> (kind: ElfType)
        ensures
            kind == self.spec_kind(),
    {
        classify_file_type(self.file_type)
    }

    /// Whether the file is a shared object or a position-independent
    /// executable, for which the loader picks the base address.
    pub open spec fn spec_is_shared_object(&self) -> bool {
        self.kind() == ElfType::SharedObject
    }

    /// Whether the file is a shared object or a position-independent
    /// executable, for which the loader picks the base address.
    #[verifier::when_used_as_spec(spec_is_shared_object)]
    pub fn is_shared_object(&self) -> (shared: bool)
        ensures
            shared == self.spec_is_shared_object(),
    {
        match self.kind() {
            ElfType::SharedObject => true,
            _ => false,
        }
    }

    /// Whether `header` is a loadable segment whose bytes in the file include
    /// the first byte of the program-header table.
    pub open spec fn holds_table(&self, header: ProgramHeader) -> bool {
        header.is_load() && header.covers(self.ph_offset)
    }

    /// [`Self::holds_table`] as a predicate on program headers.
    pub open spec fn table_filter(&self) -> spec_fn(ProgramHeader) -> bool {
        |header: ProgramHeader| self.holds_table(header)
    }

    /// The loadable segments that hold the start of the program-header table,
    /// in file order.
    pub open spec fn table_candidates(&self) -> Seq<ProgramHeader> {
        self.program_headers@.filter(self.table_filter())
    }

    /// The first loadable segment that holds the start of the program-header
    /// table, if there is one.
    pub open spec fn spec_table_segment(&self) -> Option<ProgramHeader> {
        if self.table_candidates().len() > 0 {
            Some(self.table_candidates().first())
        } else {
            None
        }
    }

    /// The first loadable segment that holds the start of the program-header
    /// table, if there is one.
    #[verifier::when_used_as_spec(spec_table_segment)]
    pub fn table_segment(&self) -> (found: Option<ProgramHeader>)
        ensures
            found == self.spec_table_segment(),
    {
        let ghost headers = self.program_headers@;
        let ghost keep = self.table_filter();
        let mut index: usize = 0;
        while index < self.program_headers.len()
            invariant
                index <= headers.len(),
                headers == self.program_headers@,
                keep == self.table_filter(),
                headers.take(index as int).filter(keep).len() == 0,
            decreases headers.len() - index,
        {
            let header = self.program_headers[index];
            proof {
                assert(headers.take(index + 1) =~= headers.take(index as int).push(header));
                headers.take(index as int).lemma_filter_push(header, keep);
            }
            if header.is_load() && header.covers(self.ph_offset) {
                proof {
                    let before = headers.take(index + 1);
                    let after = headers.skip(index + 1);
                    assert(headers =~= before + after);
                    Seq::filter_distributes_over_add(before, after, keep);
                    assert(before.filter(keep) =~= seq![header]);
                }
                return Some(header);
            }
            index += 1;
        }
        proof {
            assert(headers.take(index as int) =~= headers);
        }
        None
    }

    /// The table segment is the first entry of the program-header table that
    /// is loadable and holds the table's offset: it is such an entry, and no
    /// entry before it is one. There is no table segment exactly where the
    /// program-header table has no such entry.
    pub proof fn lemma_table_segment_is_first(&self)
        ensures
            self.table_segment() is None <==> forall|index: int|
                0 <= index < self.program_headers@.len() ==> !self.holds_table(
                    #[trigger] self.program_headers@[index],
                ),
            self.table_segment() matches Some(segment) ==> exists|index: int|
                {
                    &&& 0 <= index < self.program_headers@.len()
                    &&& #[trigger] self.program_headers@[index] == segment
                    &&& self.holds_table(segment)
                    &&& forall|earlier: int|
                        0 <= earlier < index ==> !self.holds_table(
                            #[trigger] self.program_headers@[earlier],
                        )
                },
    {
        let headers = self.program_headers@;
        let keep = self.table_filter();
        if headers.filter(keep).len() > 0 {
            let index = lemma_first_kept(headers, keep);
            assert(self.holds_table(headers[index]));
        } else {
            assert forall|index: int| 0 <= index < headers.len() implies !self.holds_table(
                #[trigger] headers[index],
            ) by {
                if keep(headers[index]) {
                    headers.lemma_filter_contains(keep, index);
                }
            }
        }
    }

    /// [`ProgramHeader::is_load`] as a predicate on program headers.
    pub open spec fn load_filter() -> spec_fn(ProgramHeader) -> bool {
        |header: ProgramHeader| header.is_load()
    }

    /// The program headers that describe segments to be mapped, in file order.
    pub open spec fn load_segments(&self) -> Seq<ProgramHeader> {
        self.program_headers@.filter(Self::load_filter())
    }

    /// The places in the program-header table at which the loadable segments
    /// stand, in rising order.
    pub open spec fn load_positions(&self) -> Seq<int> {
        load_positions_in(self.program_headers@)
    }

    /// The loadable segments are the entries of the program-header table whose
    /// kind is `Load`, each of them once, in the order of the table: the
    /// segment at place `k` is the table entry at `load_positions()[k]`, these
    /// positions rise, and they are all the positions of `Load` entries.
    pub proof fn lemma_load_segments_in_file_order(&self)
        ensures
            self.load_positions().len() == self.load_segments().len(),
            forall|k: int|
                0 <= k < self.load_segments().len() ==> {
                    &&& 0 <= #[trigger] self.load_positions()[k] < self.program_headers@.len()
                    &&& self.program_headers@[self.load_positions()[k]] == self.load_segments()[k]
                },
            forall|j: int, k: int|
                0 <= j < k < self.load_positions().len() ==> self.load_positions()[j]
                    < self.load_positions()[k],
            forall|index: int|
                0 <= index < self.program_headers@.len() ==> (
                #[trigger] self.program_headers@[index].is_load()
                    <==> self.load_positions().contains(index)),
    {
        lemma_load_positions(self.program_headers@);
    }
}

/// Finds the place in `headers` of the first entry that `keep` keeps.
proof fn lemma_first_kept(headers: Seq<ProgramHeader>, keep: spec_fn(ProgramHeader) -> bool) -> (index:
    int)
    requires
        headers.filter(keep).len() > 0,
    ensures
        0 <= index < headers.len(),
        headers[index] == headers.filter(keep)[0],
        keep(headers[index]),
        forall|earlier: int| 0 <= earlier < index ==> !keep(#[trigger] headers[earlier]),
    decreases headers.len(),
{
    reveal(Seq::filter);
    let shorter = headers.drop_last();
    if shorter.filter(keep).len() > 0 {
        let index = lemma_first_kept(shorter, keep);
        assert forall|earlier: int| 0 <= earlier < index implies !keep(
            #[trigger] headers[earlier],
        ) by {
            assert(shorter[earlier] == headers[earlier]);
        }
        index
    } else {
        assert forall|earlier: int| 0 <= earlier < headers.len() - 1 implies !keep(
            #[trigger] headers[earlier],
        ) by {
            if keep(shorter[earlier]) {
                shorter.lemma_filter_contains(keep, earlier);
            }
        }
        headers.len() - 1
    }
}

/// The positions in `headers` of the entries whose kind is `Load`, in rising
/// order.
pub open spec fn load_positions_in(headers: Seq<ProgramHeader>) -> Seq<int>
    decreases headers.len(),
{
    if headers.len() == 0 {
        Seq::<int>::empty()
    } else {
        let before = load_positions_in(headers.drop_last());
        if headers.last().is_load() {
            before.push(headers.len() - 1)
        } else {
            before
        }
    }
}

/// What [`load_positions_in`] says of the entries that
/// [`ParsedElf::load_filter`] keeps.
proof fn lemma_load_positions(headers: Seq<ProgramHeader>)
    ensures
        load_positions_in(headers).len() == headers.filter(ParsedElf::load_filter()).len(),
        forall|k: int|
            0 <= k < load_positions_in(headers).len() ==> {
                &&& 0 <= #[trigger] load_positions_in(headers)[k] < headers.len()
                &&& headers[load_positions_in(headers)[k]] == headers.filter(
                    ParsedElf::load_filter(),
                )[k]
            },
        forall|j: int, k: int|
            0 <= j < k < load_positions_in(headers).len() ==> load_positions_in(headers)[j]
                < load_positions_in(headers)[k],
        forall|index: int|
            0 <= index < headers.len() ==> (#[trigger] headers[index].is_load()
                <==> load_positions_in(headers).contains(index)),
    decreases headers.len(),
{
    reveal(Seq::filter);
    if headers.len() > 0 {
        let shorter = headers.drop_last();
        let before = load_positions_in(shorter);
        let places = load_positions_in(headers);
        lemma_load_positions(shorter);
        assert forall|index: int| 0 <= index < headers.len() implies (
        #[trigger] headers[index].is_load() <==> places.contains(index)) by {
            if index < shorter.len() {
                assert(shorter[index] == headers[index]);
                if headers[index].is_load() {
                    let k = choose|k: int| 0 <= k < before.len() && before[k] == index;
                    assert(places[k] == index);
                }
                if places.contains(index) {
                    let k = choose|k: int| 0 <= k < places.len() && places[k] == index;
                    assert(before[k] == index);
                }
            } else {
                if headers[index].is_load() {
                    assert(places[places.len() - 1] == index);
                }
                if places.contains(index) {
                    let k = choose|k: int| 0 <= k < places.len() && places[k] == index;
                    if k < before.len() {
                        assert(before[k] == index);
                    }
                }
            }
        }
    }
}

} // verus!
