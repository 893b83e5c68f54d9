//! What a loader reads from an ELF file, rebased to where the file is loaded.

use vstd::prelude::*;
use xmas_elf::program::Flags;
use crate::auxv::{AuxEntry, AuxType};
use crate::elf::{ParsedElf, ProgramHeader};
use crate::error::ElfError;

verus! {

/// A loadable segment as the loader maps it.
///
/// The first `filesz` bytes of the segment come from the file, the rest of its
/// `memsz` bytes are filled with zeros.
#[derive(Clone, Copy, Debug)]
pub struct ELFPH {
    /// Where the segment starts in the file.
    pub offset: usize,
    /// The address at which the segment is placed in memory.
    pub vaddr: usize,
    /// The size of the segment in memory.
    pub memsz: u64,
    /// The number of bytes of the segment that come from the file.
    pub filesz: u64,
    /// The access permissions of the segment, from which the page-table
    /// entries are made.
    pub flags: Flags,
}

/// The base address at which a file is loaded: the bias that the loader has
/// chosen if the file can be placed anywhere, and zero if the addresses in the
/// file are absolute.
pub open spec fn resolved_base(elf: &ParsedElf, bias: usize) -> usize {
    if elf.is_shared_object() {
        bias
    } else {
        0
    }
}

/// The auxiliary-vector entries that describe a loaded binary: five that are
/// always there, and the base address of the program interpreter if there is
/// one.
pub open spec fn aux_entries(
    phdr: usize,
    phent: usize,
    phnum: usize,
    pagesz: usize,
    entry: usize,
    ldso_base: Option<usize>,
) -> Seq<AuxEntry> {
    seq![
        AuxEntry { auxv_type: AuxType::PHDR, auxv_val: phdr },
        AuxEntry { auxv_type: AuxType::PHENT, auxv_val: phent },
        AuxEntry { auxv_type: AuxType::PHNUM, auxv_val: phnum },
        AuxEntry { auxv_type: AuxType::PAGESZ, auxv_val: pagesz },
        AuxEntry { auxv_type: AuxType::ENTRY, auxv_val: entry },
    ] + match ldso_base {
        Some(base) => seq![AuxEntry { auxv_type: AuxType::BASE, auxv_val: base }],
        None => Seq::<AuxEntry>::empty(),
    }
}

/// A decoded ELF file together with the base address at which it is loaded.
///
/// The parser borrows the file and never changes it. The base is settled when
/// the parser is made, and every address the parser hands out is the address
/// in the file plus that base.
pub struct ELFParser<'a> {
    elf: &'a ParsedElf,
    base: usize,
}

impl<'a> ELFParser<'a> {
    /// The file starts with the ELF magic bytes, and only a file that can be
    /// placed anywhere has a base other than zero.
    #[verifier::type_invariant]
    spec fn inv(self) -> bool {
        self.elf.has_magic() && (!self.elf.is_shared_object() ==> self.base == 0)
    }

    /// The file that the parser reads.
    pub closed spec fn spec_elf(&self) -> &ParsedElf {
        self.elf
    }

    /// The base address that the parser adds to every address of the file.
    pub closed spec fn spec_base(&self) -> usize {
        self.base
    }

    /// The entry point after rebasing.
    pub open spec fn entry_addr(&self) -> int {
        self.elf().entry_point + self.base()
    }

    /// The address at which the program-header table lies once the segment
    /// that holds it is mapped, if there is such a segment.
    pub open spec fn phdr_addr(&self) -> Option<int> {
        match self.elf().table_segment() {
            Some(segment) => Some(
                self.elf().ph_offset - segment.offset + segment.virtual_addr + self.base(),
            ),
            None => None,
        }
    }

    /// Whether the file offset and the rebased address of `header` are
    /// addresses of this machine.
    pub open spec fn segment_fits(&self, header: ProgramHeader) -> bool {
        header.offset <= usize::MAX && header.virtual_addr + self.base() <= usize::MAX
    }

    /// Whether every loadable segment of the file fits, see
    /// [`Self::segment_fits`].
    pub open spec fn segments_fit(&self) -> bool {
        forall|index: int|
            0 <= index < self.elf().program_headers@.len()
                && self.elf().program_headers@[index].is_load() ==> self.segment_fits(
                #[trigger] self.elf().program_headers@[index],
            )
    }

    /// The descriptor that the loader gets for `header`.
    pub open spec fn rebased(&self, header: ProgramHeader) -> ELFPH {
        ELFPH {
            offset: header.offset as usize,
            vaddr: (header.virtual_addr + self.base()) as usize,
            memsz: header.mem_size,
            filesz: header.file_size,
            flags: header.flags,
        }
    }

    /// [`Self::rebased`] as a function on program headers.
    pub open spec fn rebase(&self) -> spec_fn(ProgramHeader) -> ELFPH {
        |header: ProgramHeader| self.rebased(header)
    }

    /// The descriptors of the loadable segments, in file order.
    pub open spec fn load_descriptors(&self) -> Seq<ELFPH> {
        self.elf().load_segments().map_values(self.rebase())
    }

    /// Whether every address that the parser can be asked for is an address of
    /// this machine.
    pub open spec fn spec_addresses_fit(&self) -> bool {
        &&& self.entry_addr() <= usize::MAX
        &&& self.segments_fit()
        &&& (self.phdr_addr() matches Some(addr) ==> addr <= usize::MAX)
    }

    /// Makes a parser for `elf`, or fails with [`ElfError::MalformedInput`] if
    /// `elf` does not start with the ELF magic bytes.
    ///
    /// `bias` is the address that the loader has chosen for a file that can be
    /// placed anywhere. For any other file it is ignored and the base is zero.
    pub fn new(elf: &'a ParsedElf, bias: usize) -> (made: Result<Self, ElfError>)
        ensures
            made is Ok <==> elf.has_magic(),
            made matches Ok(parser) ==> parser.elf() == elf && parser.base() == resolved_base(
                elf,
                bias,
            ),
            made matches Err(error) ==> error == ElfError::MalformedInput,
    {
        if !elf.has_magic() {
            return Err(ElfError::MalformedInput);
        }
        let base = if elf.is_shared_object() {
            bias
        } else {
            0
        };
        Ok(Self { elf, base })
    }

    /// The address at which the program starts: the entry point that the file
    /// names, plus the base.
    ///
    /// The sum has to be an address of this machine, which
    /// [`Self::addresses_fit`] tells.
    pub fn entry(&self) -> (addr: usize)
        requires
            self.entry_addr() <= usize::MAX,
        ensures
            addr == self.entry_addr(),
    {
        self.elf.entry_point as usize + self.base
    }

    /// The number of program headers that the header of the file announces.
    pub fn phnum(&self) -> (count: usize)
        ensures
            count == self.elf().ph_count,
    {
        self.elf.ph_count as usize
    }

    /// The size in bytes of one entry of the program-header table.
    pub fn phent(&self) -> (size: usize)
        ensures
            size == self.elf().ph_entry_size,
    {
        self.elf.ph_entry_size as usize
    }

    /// The address of the program-header table in memory.
    ///
    /// The header of the file gives the table's offset in the file. The table
    /// is mapped as part of the first loadable segment whose bytes in the file
    /// include that offset, and lies as far from the segment's start in memory
    /// as it does in the file. Where no loadable segment holds the table the
    /// file cannot be loaded, and the answer is
    /// [`ElfError::InconsistentLayout`].
    ///
    /// The address has to be an address of this machine, which
    /// [`Self::addresses_fit`] tells.
    pub fn phdr(&self) -> (located: Result<usize, ElfError>)
        requires
            self.phdr_addr() matches Some(addr) ==> addr <= usize::MAX,
        ensures
            self.phdr_addr() matches Some(addr) ==> located == Ok::<usize, ElfError>(
                addr as usize,
            ),
            self.phdr_addr() is None ==> located == Err::<usize, ElfError>(
                ElfError::InconsistentLayout,
            ),
    {
        match self.elf.table_segment() {
            Some(segment) => {
                let within = self.elf.ph_offset - segment.offset;
                Ok(within as usize + segment.virtual_addr as usize + self.base)
            },
            None => Err(ElfError::InconsistentLayout),
        }
    }

    /// The base address at which the file is loaded. It is zero unless the
    /// file can be placed anywhere.
    #[verifier::when_used_as_spec(spec_base)]
    pub fn base(&self) -> (base: usize)
        ensures
            base == self.spec_base(),
            !self.elf().is_shared_object() ==> base == 0,
    {
        proof {
            use_type_invariant(self);
        }
        self.base
    }

    /// The file that the parser reads. It starts with the ELF magic bytes.
    #[verifier::when_used_as_spec(spec_elf)]
    pub fn elf(&self) -> (elf: &ParsedElf)
        ensures
            elf == self.spec_elf(),
            elf.has_magic(),
    {
        proof {
            use_type_invariant(self);
        }
        self.elf
    }

    /// The entries of the auxiliary vector that describe the file, see
    /// [`aux_entries`].
    ///
    /// `pagesz` is the page size of the system and `ldso_base` the base
    /// address of the program interpreter, if the program has one. Fails as
    /// [`Self::phdr`] does, since the vector holds the address of the
    /// program-header table.
    ///
    /// That address and the entry point have to be addresses of this machine,
    /// which [`Self::addresses_fit`] tells.
    pub fn aux_vector(&self, pagesz: usize, ldso_base: Option<usize>) -> (vector: Result<
        Vec<AuxEntry>,
        ElfError,
    >)
        requires
            self.entry_addr() <= usize::MAX,
            self.phdr_addr() matches Some(addr) ==> addr <= usize::MAX,
        ensures
            vector is Ok <==> self.phdr_addr() is Some,
            vector matches Ok(entries) ==> entries@ == aux_entries(
                self.phdr_addr()->0 as usize,
                self.elf().ph_entry_size as usize,
                self.elf().ph_count as usize,
                pagesz,
                self.entry_addr() as usize,
                ldso_base,
            ),
            vector matches Err(error) ==> error == ElfError::InconsistentLayout,
    {
        let phdr = match self.phdr() {
            Ok(addr) => addr,
            Err(error) => {
                return Err(error);
            },
        };
        let mut entries: Vec<AuxEntry> = Vec::new();
        entries.push(AuxEntry::new(AuxType::PHDR, phdr));
        entries.push(AuxEntry::new(AuxType::PHENT, self.phent()));
        entries.push(AuxEntry::new(AuxType::PHNUM, self.phnum()));
        entries.push(AuxEntry::new(AuxType::PAGESZ, pagesz));
        entries.push(AuxEntry::new(AuxType::ENTRY, self.entry()));
        match ldso_base {
            Some(base) => {
                entries.push(AuxEntry::new(AuxType::BASE, base));
            },
            None => {},
        }
        Ok(entries)
    }

    /// The segments that the loader maps: one descriptor for each entry of the
    /// program-header table whose kind is `Load`, in the order of the table.
    ///
    /// The address of a segment is rebased. Its file offset, its sizes and its
    /// permissions are those of the file.
    ///
    /// The file offset and the rebased address of every such segment have to
    /// be addresses of this machine, which [`Self::addresses_fit`] tells.
    pub fn ph_load(&self) -> (segments: Vec<ELFPH>)
        requires
            self.segments_fit(),
        ensures
            segments@ == self.load_descriptors(),
    {
        let ghost headers = self.elf.program_headers@;
        let ghost keep = ParsedElf::load_filter();
        let ghost rebase = self.rebase();
        let mut segments: Vec<ELFPH> = Vec::new();
        let mut index: usize = 0;
        while index < self.elf.program_headers.len()
            invariant
                index <= headers.len(),
                headers == self.elf.program_headers@,
                headers == self.elf().program_headers@,
                keep == ParsedElf::load_filter(),
                rebase == self.rebase(),
                self.segments_fit(),
                segments@ == headers.take(index as int).filter(keep).map_values(rebase),
            decreases headers.len() - index,
        {
            let header = self.elf.program_headers[index];
            proof {
                assert(headers.take(index + 1) =~= headers.take(index as int).push(header));
                headers.take(index as int).lemma_filter_push(header, keep);
            }
            if header.is_load() {
                assert(self.segment_fits(headers[index as int]));
                let start_va = header.virtual_addr as usize + self.base;
                let start_offset = header.offset as usize;
                segments.push(
                    ELFPH {
                        offset: start_offset,
                        vaddr: start_va,
                        memsz: header.mem_size,
                        filesz: header.file_size,
                        flags: header.flags,
                    },
                );
                assert(segments@ =~= headers.take(index + 1).filter(keep).map_values(rebase));
            }
            index += 1;
        }
        proof {
            assert(headers.take(index as int) =~= headers);
        }
        segments
    }

    /// Whether every address that the parser can be asked for is an address of
    /// this machine: the entry point, the address of the program-header table
    /// if a segment holds it, and the file offset and the address of every
    /// loadable segment. Where this holds, every method of the parser can be
    /// called.
    #[verifier::when_used_as_spec(spec_addresses_fit)]
    pub fn addresses_fit(&self) -> (fit: bool)
        ensures
            fit == self.spec_addresses_fit(),
    {
        let limit: u128 = usize::MAX as u128;
        let base: u128 = self.base as u128;
        if self.elf.entry_point as u128 + base > limit {
            return false;
        }
        match self.elf.table_segment() {
            Some(segment) => {
                let within = self.elf.ph_offset - segment.offset;
                if within as u128 + segment.virtual_addr as u128 + base > limit {
                    return false;
                }
            },
            None => {},
        }
        let ghost headers = self.elf.program_headers@;
        let mut index: usize = 0;
        while index < self.elf.program_headers.len()
            invariant
                index <= headers.len(),
                headers == self.elf.program_headers@,
                limit == usize::MAX,
                base == self.base,
                forall|earlier: int|
                    0 <= earlier < index && headers[earlier].is_load() ==> self.segment_fits(
                        #[trigger] headers[earlier],
                    ),
            decreases headers.len() - index,
        {
            let header = self.elf.program_headers[index];
            if header.is_load() && (header.offset as u128 > limit || header.virtual_addr as u128
                + base > limit) {
                assert(!self.segment_fits(headers[index as int]));
                return false;
            }
            index += 1;
        }
        true
    }

    /// The descriptors that [`Self::ph_load`] hands out stand for the entries
    /// of the program-header table whose kind is `Load`, for each of them once
    /// and for no other entry, in the order of the table: descriptor `k` is
    /// made of the table entry at `load_positions()[k]`, these positions rise,
    /// and they are all the positions of `Load` entries.
    pub proof fn lemma_ph_load_in_file_order(&self)
        ensures
            self.load_descriptors().len() == self.elf().load_positions().len(),
            forall|k: int|
                0 <= k < self.load_descriptors().len() ==> {
                    &&& 0 <= self.elf().load_positions()[k] < self.elf().program_headers@.len()
                    &&& #[trigger] self.load_descriptors()[k] == self.rebased(
                        self.elf().program_headers@[self.elf().load_positions()[k]],
                    )
                },
            forall|j: int, k: int|
                0 <= j < k < self.elf().load_positions().len() ==> self.elf().load_positions()[j]
                    < self.elf().load_positions()[k],
            forall|index: int|
                0 <= index < self.elf().program_headers@.len() ==> (
                #[trigger] self.elf().program_headers@[index].is_load()
                    <==> self.elf().load_positions().contains(index)),
    {
        self.elf().lemma_load_segments_in_file_order();
    }

    /// Reading the segments again gives the same descriptors: what
    /// [`Self::ph_load`] hands out depends on the parser alone, so any two of
    /// its results for one parser are equal.
    pub proof fn lemma_ph_load_repeatable(&self, first: Seq<ELFPH>, second: Seq<ELFPH>)
        requires
            first == self.load_descriptors(),
            second == self.load_descriptors(),
        ensures
            first == second,
    {
    }

    /// A parser that was made with the bias `bias` for a file that can be
    /// placed anywhere adds `bias` to the entry point and to the address of
    /// every loadable segment, and leaves the other fields of a segment as the
    /// file has them.
    pub proof fn lemma_rebased_by_bias(&self, bias: usize)
        requires
            self.elf().is_shared_object(),
            self.base() == resolved_base(self.elf(), bias),
        ensures
            self.entry_addr() == self.elf().entry_point + bias,
            self.load_descriptors().len() == self.elf().load_segments().len(),
            forall|k: int|
                0 <= k < self.elf().load_segments().len() ==> {
                    let header = self.elf().load_segments()[k];
                    let segment = #[trigger] self.load_descriptors()[k];
                    &&& self.segment_fits(header) ==> segment.vaddr == header.virtual_addr + bias
                        && segment.offset == header.offset
                    &&& segment.memsz == header.mem_size
                    &&& segment.filesz == header.file_size
                    &&& segment.flags == header.flags
                },
    {
    }

    /// Where a loadable segment holds the program-header table and the file
    /// has no more bytes of that segment than the segment takes in memory, the
    /// address of the table, less the base, lies within the addresses that the
    /// file gives to that segment.
    pub proof fn lemma_phdr_within_segment(&self)
        requires
            self.elf().table_segment() matches Some(segment) && segment.well_formed(),
        ensures
            self.phdr_addr() is Some,
            ({
                let segment = self.elf().table_segment()->0;
                let addr = self.phdr_addr()->0;
                &&& self.elf().program_headers@.contains(segment)
                &&& segment.is_load()
                &&& segment.covers(self.elf().ph_offset)
                &&& segment.virtual_addr <= addr - self.base() < segment.virtual_addr
                    + segment.mem_size
            }),
    {
        let headers = self.elf().program_headers@;
        let keep = self.elf().table_filter();
        headers.lemma_filter_pred(keep, 0);
        headers.lemma_filter_contains_rev(keep, headers.filter(keep)[0]);
    }
}

/// With the base address of a program interpreter the auxiliary vector has six
/// entries, of which exactly one, the last, is tagged `BASE` and holds that
/// address. Without one it has five entries and none is tagged `BASE`. The
/// first five entries are the same in both, one for each of the other tags.
pub proof fn lemma_aux_entries(
    phdr: usize,
    phent: usize,
    phnum: usize,
    pagesz: usize,
    entry: usize,
    ldso_base: Option<usize>,
)
    ensures
        ({
            let entries = aux_entries(phdr, phent, phnum, pagesz, entry, ldso_base);
            &&& entries.len() == (if ldso_base is Some { 6int } else { 5int })
            &&& entries[0] == (AuxEntry { auxv_type: AuxType::PHDR, auxv_val: phdr })
            &&& entries[1] == (AuxEntry { auxv_type: AuxType::PHENT, auxv_val: phent })
            &&& entries[2] == (AuxEntry { auxv_type: AuxType::PHNUM, auxv_val: phnum })
            &&& entries[3] == (AuxEntry { auxv_type: AuxType::PAGESZ, auxv_val: pagesz })
            &&& entries[4] == (AuxEntry { auxv_type: AuxType::ENTRY, auxv_val: entry })
            &&& forall|index: int|
                0 <= index < entries.len() ==> (#[trigger] entries[index].auxv_type
                    == AuxType::BASE <==> index == 5)
            &&& ldso_base matches Some(base) ==> entries[5].auxv_val == base
        }),
{
}

} // verus!
