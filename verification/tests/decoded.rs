use kernel_elf_parser::{AuxType, ELFParser, ElfType, ParsedElf, ProgramHeader, SegmentType};
use xmas_elf::program::Type;
use xmas_elf::ElfFile;

struct Segment {
    kind: u32,
    flags: u32,
    offset: u64,
    virtual_addr: u64,
    file_size: u64,
    mem_size: u64,
}

/// The bytes of a 64-bit ELF file that holds nothing but its header and a
/// program-header table right behind it.
fn file_bytes(file_type: u16, entry: u64, segments: &[Segment]) -> Vec<u8> {
    let mut bytes = vec![0x7f, b'E', b'L', b'F', 2, 1, 1, 0, 0, 0, 0, 0, 0, 0, 0, 0];
    bytes.extend_from_slice(&file_type.to_ne_bytes());
    bytes.extend_from_slice(&0x3eu16.to_ne_bytes());
    bytes.extend_from_slice(&1u32.to_ne_bytes());
    bytes.extend_from_slice(&entry.to_ne_bytes());
    bytes.extend_from_slice(&64u64.to_ne_bytes());
    bytes.extend_from_slice(&0u64.to_ne_bytes());
    bytes.extend_from_slice(&0u32.to_ne_bytes());
    bytes.extend_from_slice(&64u16.to_ne_bytes());
    bytes.extend_from_slice(&56u16.to_ne_bytes());
    bytes.extend_from_slice(&(segments.len() as u16).to_ne_bytes());
    bytes.extend_from_slice(&[0; 6]);
    assert_eq!(bytes.len(), 64);
    for segment in segments {
        bytes.extend_from_slice(&segment.kind.to_ne_bytes());
        bytes.extend_from_slice(&segment.flags.to_ne_bytes());
        bytes.extend_from_slice(&segment.offset.to_ne_bytes());
        bytes.extend_from_slice(&segment.virtual_addr.to_ne_bytes());
        bytes.extend_from_slice(&segment.virtual_addr.to_ne_bytes());
        bytes.extend_from_slice(&segment.file_size.to_ne_bytes());
        bytes.extend_from_slice(&segment.mem_size.to_ne_bytes());
        bytes.extend_from_slice(&0x1000u64.to_ne_bytes());
    }
    bytes
}

/// A copy of `bytes` that starts at an address divisible by eight, as the
/// decoder asks: the storage and where in it the copy starts.
fn aligned(bytes: &[u8]) -> (Vec<u8>, usize) {
    let mut storage = vec![0u8; bytes.len() + 8];
    let start = storage.as_ptr().align_offset(8);
    storage[start..start + bytes.len()].copy_from_slice(bytes);
    (storage, start)
}

fn segment_type(kind: Result<Type, &'static str>) -> SegmentType {
    match kind {
        Ok(Type::Null) => SegmentType::Null,
        Ok(Type::Load) => SegmentType::Load,
        Ok(Type::Dynamic) => SegmentType::Dynamic,
        Ok(Type::Interp) => SegmentType::Interp,
        Ok(Type::Note) => SegmentType::Note,
        Ok(Type::ShLib) => SegmentType::ShLib,
        Ok(Type::Phdr) => SegmentType::Phdr,
        Ok(Type::Tls) => SegmentType::Tls,
        Ok(Type::GnuRelro) => SegmentType::GnuRelro,
        Ok(Type::OsSpecific(value)) => SegmentType::OsSpecific(value),
        Ok(Type::ProcessorSpecific(value)) => SegmentType::ProcessorSpecific(value),
        Err(_) => SegmentType::Invalid,
    }
}

fn parse(elf: &ElfFile<'_>) -> ParsedElf {
    let header = elf.header.pt2;
    ParsedElf {
        magic: elf.header.pt1.magic,
        file_type: header.type_().0,
        entry_point: header.entry_point(),
        ph_offset: header.ph_offset(),
        ph_entry_size: header.ph_entry_size(),
        ph_count: header.ph_count(),
        program_headers: elf
            .program_iter()
            .map(|ph| ProgramHeader {
                kind: segment_type(ph.get_type()),
                offset: ph.offset(),
                virtual_addr: ph.virtual_addr(),
                file_size: ph.file_size(),
                mem_size: ph.mem_size(),
                flags: ph.flags(),
            })
            .collect(),
    }
}

fn one_load_segment() -> Vec<Segment> {
    vec![Segment {
        kind: 1,
        flags: 5,
        offset: 0,
        virtual_addr: 0x400000,
        file_size: 0x2000,
        mem_size: 0x2000,
    }]
}

#[test]
fn decoded_static_executable() {
    let (storage, start) = aligned(&file_bytes(2, 0x401000, &one_load_segment()));
    let file = ElfFile::new(&storage[start..start + 64 + 56]).unwrap();
    let elf = parse(&file);
    assert_eq!(elf.kind(), ElfType::Executable);
    let parser = ELFParser::new(&elf, 0x7f0000000000).unwrap();
    assert!(parser.addresses_fit());
    assert_eq!(parser.base(), 0);
    assert_eq!(parser.entry(), 0x401000);
    assert_eq!(parser.phdr(), Ok(0x400040));
    assert_eq!(parser.phnum(), 1);
    assert_eq!(parser.phent(), 56);
    let segments = parser.ph_load();
    assert_eq!(segments.len(), 1);
    assert_eq!(segments[0].offset, 0);
    assert_eq!(segments[0].vaddr, 0x400000);
    assert_eq!(segments[0].memsz, 0x2000);
    assert_eq!(segments[0].filesz, 0x2000);
    assert_eq!(segments[0].flags.0, 5);
}

#[test]
fn decoded_shared_object() {
    let (storage, start) = aligned(&file_bytes(3, 0x401000, &one_load_segment()));
    let file = ElfFile::new(&storage[start..start + 64 + 56]).unwrap();
    let elf = parse(&file);
    assert_eq!(elf.kind(), ElfType::SharedObject);
    let parser = ELFParser::new(&elf, 0x7f0000000000).unwrap();
    assert!(parser.addresses_fit());
    assert_eq!(parser.base(), 0x7f0000000000);
    assert_eq!(parser.entry(), 0x7f0000401000);
    assert_eq!(parser.phdr(), Ok(0x7f0000400040));
    let segments = parser.ph_load();
    assert_eq!(segments.len(), 1);
    assert_eq!(segments[0].offset, 0);
    assert_eq!(segments[0].vaddr, 0x7f0000400000);
    let entries = parser.aux_vector(4096, Some(0x7f1000000000)).unwrap();
    assert_eq!(entries.len(), 6);
    assert_eq!(entries[0].get_type(), AuxType::PHDR);
    assert_eq!(entries[0].value(), 0x7f0000400040);
    assert_eq!(entries[5].get_type(), AuxType::BASE);
    assert_eq!(entries[5].value(), 0x7f1000000000);
}

#[test]
fn decoded_table_with_many_kinds() {
    let segments = vec![
        Segment { kind: 6, flags: 4, offset: 64, virtual_addr: 64, file_size: 0x150, mem_size: 0x150 },
        Segment { kind: 3, flags: 4, offset: 0x200, virtual_addr: 0x200, file_size: 0x1c, mem_size: 0x1c },
        Segment { kind: 1, flags: 5, offset: 0, virtual_addr: 0, file_size: 0x800, mem_size: 0x800 },
        Segment { kind: 1, flags: 6, offset: 0x1000, virtual_addr: 0x2000, file_size: 0x100, mem_size: 0x300 },
        Segment { kind: 2, flags: 6, offset: 0x1010, virtual_addr: 0x2010, file_size: 0x80, mem_size: 0x80 },
        Segment { kind: 0x12345, flags: 0, offset: 0, virtual_addr: 0, file_size: 0, mem_size: 0 },
    ];
    let bytes = file_bytes(3, 0x123, &segments);
    let (storage, start) = aligned(&bytes);
    let file = ElfFile::new(&storage[start..start + bytes.len()]).unwrap();
    let elf = parse(&file);
    let kinds: Vec<SegmentType> = elf.program_headers.iter().map(|h| h.kind).collect();
    assert_eq!(
        kinds,
        vec![
            SegmentType::Phdr,
            SegmentType::Interp,
            SegmentType::Load,
            SegmentType::Load,
            SegmentType::Dynamic,
            SegmentType::Invalid,
        ]
    );
    let parser = ELFParser::new(&elf, 0x10000).unwrap();
    assert!(parser.addresses_fit());
    assert_eq!(parser.phnum(), 6);
    assert_eq!(parser.entry(), 0x10123);
    assert_eq!(parser.phdr(), Ok(0x10040));
    let loaded: Vec<(usize, usize, u64, u64, u32)> =
        parser.ph_load().iter().map(|s| (s.offset, s.vaddr, s.memsz, s.filesz, s.flags.0)).collect();
    assert_eq!(loaded, vec![(0, 0x10000, 0x800, 0x800, 5), (0x1000, 0x12000, 0x300, 0x100, 6)]);
}
