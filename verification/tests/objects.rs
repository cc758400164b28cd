//! Objects in files that are put together here.
use macho::base::{Arch, Endian, FileFormat, ObjectKind};
use macho::entry::entry_point_fits;
use macho::object::{MachError, MachObject};
use macho::symbols::Symbol;

/// What a section holds.
#[derive(Clone)]
enum Contents {
    /// These bytes.
    Bytes(Vec<u8>),
    /// Nothing in the file: the header gives this offset and size.
    At(u32, u64),
}

#[derive(Clone)]
struct FileSection {
    name: Vec<u8>,
    addr: u64,
    align: u32,
    flags: u32,
    contents: Contents,
}

#[derive(Clone)]
struct FileSegment {
    name: Vec<u8>,
    vmaddr: u64,
    fileoff: u64,
    /// The number of sections that the command announces beyond those that it lists.
    more: u32,
    sections: Vec<FileSection>,
}

#[derive(Clone)]
struct TableEntry {
    name: Vec<u8>,
    n_type: u8,
    n_sect: u8,
    n_value: u64,
}

/// A file with its header, its load commands and what they refer to.
#[derive(Clone)]
struct Image {
    wide: bool,
    little: bool,
    cputype: u32,
    cpusubtype: u32,
    filetype: u32,
    segments: Vec<FileSegment>,
    symbols: Option<Vec<TableEntry>>,
    uuids: Vec<[u8; 16]>,
    entry: Option<u64>,
}

impl Image {
    fn new() -> Image {
        Image {
            wide: true,
            little: true,
            cputype: 0x0100_0007,
            cpusubtype: 3,
            filetype: 2,
            segments: vec![],
            symbols: None,
            uuids: vec![],
            entry: None,
        }
    }

    fn u16(&self, out: &mut Vec<u8>, n: u16) {
        if self.little {
            out.extend_from_slice(&n.to_le_bytes());
        } else {
            out.extend_from_slice(&n.to_be_bytes());
        }
    }

    fn u32(&self, out: &mut Vec<u8>, n: u32) {
        if self.little {
            out.extend_from_slice(&n.to_le_bytes());
        } else {
            out.extend_from_slice(&n.to_be_bytes());
        }
    }

    fn word(&self, out: &mut Vec<u8>, n: u64) {
        if !self.wide {
            self.u32(out, n as u32);
        } else {
            self.u64(out, n);
        }
    }

    fn u64(&self, out: &mut Vec<u8>, n: u64) {
        if self.little {
            out.extend_from_slice(&n.to_le_bytes());
        } else {
            out.extend_from_slice(&n.to_be_bytes());
        }
    }

    fn name(out: &mut Vec<u8>, name: &[u8]) {
        let mut padded = [0u8; 16];
        padded[..name.len()].copy_from_slice(name);
        out.extend_from_slice(&padded);
    }

    fn header_len(&self) -> usize {
        if self.wide {
            32
        } else {
            28
        }
    }

    fn commands_len(&self) -> usize {
        let (segment, section) = if self.wide { (72, 80) } else { (56, 68) };
        let segments: usize = self
            .segments
            .iter()
            .map(|s| segment + section * s.sections.len())
            .sum();
        segments
            + 24 * self.uuids.len()
            + self.symbols.as_ref().map_or(0, |_| 24)
            + self.entry.map_or(0, |_| 24)
    }

    fn build(&self) -> Vec<u8> {
        let count = self.segments.len()
            + self.uuids.len()
            + self.symbols.iter().count()
            + self.entry.iter().count();
        let mut tail_at = self.header_len() + self.commands_len();
        let mut out = vec![];
        let mut tail: Vec<u8> = vec![];
        self.u32(&mut out, if self.wide { 0xfeed_facf } else { 0xfeed_face });
        self.u32(&mut out, self.cputype);
        self.u32(&mut out, self.cpusubtype);
        self.u32(&mut out, self.filetype);
        self.u32(&mut out, count as u32);
        self.u32(&mut out, self.commands_len() as u32);
        self.u32(&mut out, 0);
        if self.wide {
            self.u32(&mut out, 0);
        }
        for segment in &self.segments {
            let n = segment.sections.len();
            let (kind, size) = if self.wide {
                (0x19, 72 + 80 * n)
            } else {
                (1, 56 + 68 * n)
            };
            self.u32(&mut out, kind);
            self.u32(&mut out, size as u32);
            Image::name(&mut out, &segment.name);
            self.word(&mut out, segment.vmaddr);
            self.word(&mut out, 0);
            self.word(&mut out, segment.fileoff);
            self.word(&mut out, 0);
            self.u32(&mut out, 0);
            self.u32(&mut out, 0);
            self.u32(&mut out, n as u32 + segment.more);
            self.u32(&mut out, 0);
            for section in &segment.sections {
                let (offset, size) = match section.contents {
                    Contents::Bytes(ref bytes) => {
                        let offset = tail_at as u32;
                        tail.extend_from_slice(bytes);
                        tail_at += bytes.len();
                        (offset, bytes.len() as u64)
                    }
                    Contents::At(offset, size) => (offset, size),
                };
                Image::name(&mut out, &section.name);
                Image::name(&mut out, &segment.name);
                self.word(&mut out, section.addr);
                self.word(&mut out, size);
                self.u32(&mut out, offset);
                self.u32(&mut out, section.align);
                self.u32(&mut out, 0);
                self.u32(&mut out, 0);
                self.u32(&mut out, section.flags);
                self.u32(&mut out, 0);
                self.u32(&mut out, 0);
                if self.wide {
                    self.u32(&mut out, 0);
                }
            }
        }
        for uuid in &self.uuids {
            self.u32(&mut out, 0x1b);
            self.u32(&mut out, 24);
            out.extend_from_slice(uuid);
        }
        if let Some(ref symbols) = self.symbols {
            let size = if self.wide { 16 } else { 12 };
            let stroff = tail_at + size * symbols.len();
            let mut table = vec![];
            let mut strings = vec![];
            for symbol in symbols {
                self.u32(&mut table, strings.len() as u32);
                table.push(symbol.n_type);
                table.push(symbol.n_sect);
                self.u16(&mut table, 0);
                self.word(&mut table, symbol.n_value);
                strings.extend_from_slice(&symbol.name);
                strings.push(0);
            }
            self.u32(&mut out, 2);
            self.u32(&mut out, 24);
            self.u32(&mut out, tail_at as u32);
            self.u32(&mut out, symbols.len() as u32);
            self.u32(&mut out, stroff as u32);
            self.u32(&mut out, strings.len() as u32);
            tail.extend_from_slice(&table);
            tail.extend_from_slice(&strings);
        }
        if let Some(entry) = self.entry {
            self.u32(&mut out, 0x8000_0028);
            self.u32(&mut out, 24);
            self.u64(&mut out, entry);
            self.u64(&mut out, 0);
        }
        out.extend_from_slice(&tail);
        out
    }
}

fn section(name: &str, contents: Contents) -> FileSection {
    FileSection {
        name: name.as_bytes().to_vec(),
        addr: 0x4000,
        align: 4,
        flags: 0,
        contents,
    }
}

fn code(name: &str) -> FileSection {
    section(name, Contents::Bytes(vec![0x90; 4]))
}

fn segment(name: &str, vmaddr: u64, sections: Vec<FileSection>) -> FileSegment {
    FileSegment {
        name: name.as_bytes().to_vec(),
        vmaddr,
        fileoff: 0,
        more: 0,
        sections,
    }
}

fn nlist(name: &str, n_type: u8, n_sect: u8, n_value: u64) -> TableEntry {
    TableEntry {
        name: name.as_bytes().to_vec(),
        n_type,
        n_sect,
        n_value,
    }
}

fn function(name: &str, address: u64) -> Symbol<'_> {
    Symbol {
        name: Some(name),
        address,
        size: 0,
    }
}

fn parse(data: &[u8]) -> MachObject<'_> {
    assert!(entry_point_fits(data));
    MachObject::parse(data).expect("an object")
}

fn is_bad(data: &[u8]) -> bool {
    assert!(entry_point_fits(data));
    matches!(MachObject::parse(data), Err(MachError::BadObject(_)))
}

fn symbols<'d>(object: &MachObject<'d>) -> Vec<Symbol<'d>> {
    let mut iter = object.symbols();
    let mut res = vec![];
    while let Some(symbol) = iter.next() {
        res.push(symbol);
    }
    assert!(iter.next().is_none());
    res
}

/// The four variants of the format.
fn variants(image: &Image) -> Vec<Image> {
    let mut res = vec![];
    for wide in [false, true].iter() {
        for little in [false, true].iter() {
            let mut variant = image.clone();
            variant.wide = *wide;
            variant.little = *little;
            res.push(variant);
        }
    }
    res
}

#[test]
fn objects_pass_the_test() {
    for image in variants(&Image::new()) {
        let data = image.build();
        assert!(MachObject::test(&data));
        assert!(MachObject::test(&data[..16]));
        assert!(!MachObject::test(&data[..15]));
    }
}

#[test]
fn other_files_fail_the_test() {
    assert!(!MachObject::test(&[]));
    assert!(!MachObject::test(&[0; 64]));
    let mut elf = vec![0x7f, b'E', b'L', b'F'];
    elf.resize(64, 0);
    assert!(!MachObject::test(&elf));
    let mut fat = vec![0xca, 0xfe, 0xba, 0xbe];
    fat.resize(64, 0);
    assert!(!MachObject::test(&fat));
}

#[test]
fn header_alone_is_an_object() {
    for image in variants(&Image::new()) {
        let mut data = image.build();
        data.resize(32, 0);
        let object = parse(&data);
        assert_eq!(object.data(), &data[..]);
        assert_eq!(object.file_format(), FileFormat::MachO);
        assert_eq!(object.load_address(), 0);
        assert!(!object.has_symbols());
        assert!(!object.has_debug_info());
        assert!(!object.has_unwind_info());
        assert!(!object.has_sources());
        assert!(!object.requires_symbolmap());
        assert!(object.code_id().is_none());
        assert_eq!(symbols(&object), vec![]);
    }
}

#[test]
fn data_can_be_parsed_again() {
    let mut image = Image::new();
    image.uuids.push([7; 16]);
    let data = image.build();
    let object = parse(&data);
    let again = parse(object.data());
    assert_eq!(again.data(), object.data());
    assert_eq!(again.code_id(), object.code_id());
}

#[test]
fn broken_files_are_no_objects() {
    assert!(is_bad(&[]));
    assert!(is_bad(&[0; 64]));
    // The header is cut off.
    let data = Image::new().build();
    assert!(is_bad(&data[..31]));
    // The load commands are cut off.
    let mut image = Image::new();
    image.uuids.push([1; 16]);
    let data = image.build();
    assert!(is_bad(&data[..data.len() - 1]));
    // There is no room for as many load commands.
    let mut data = image.build();
    data[16] = 4;
    assert!(is_bad(&data));
    // A load command is longer than the file.
    let mut data = image.build();
    data[32 + 4] = 25;
    assert!(is_bad(&data));
    // The string table lies before the symbol table.
    let mut image = Image::new();
    image.symbols = Some(vec![nlist("a", 0x0f, 1, 0)]);
    let mut data = image.build();
    assert!(!is_bad(&data));
    data[32 + 16] = 0;
    assert!(is_bad(&data));
    // A segment lies beyond the end of the file.
    let mut image = Image::new();
    image.segments.push(segment("__TEXT", 0, vec![]));
    let mut data = image.build();
    assert!(!is_bad(&data));
    data[32 + 48] = 1;
    data[32 + 40] = 104;
    assert!(is_bad(&data));
    data[32 + 40] = 103;
    assert!(!is_bad(&data));
}

#[test]
fn arch_and_kind_come_from_the_header() {
    let mut image = Image::new();
    image.cputype = 12;
    image.cpusubtype = 9;
    image.filetype = 0xa;
    for variant in variants(&image) {
        let mut data = variant.build();
        data.resize(32, 0);
        let object = parse(&data);
        assert_eq!(object.arch(), Arch::ArmV7);
        assert_eq!(object.kind(), ObjectKind::Debug);
        let endian = if variant.little {
            Endian::Little
        } else {
            Endian::Big
        };
        assert_eq!(object.endianity(), endian);
    }
}

#[test]
fn arch_has_no_capability_bits() {
    let mut image = Image::new();
    image.cpusubtype = 0x8000_0003;
    assert_eq!(parse(&image.build()).arch(), Arch::Amd64);
    image.cpusubtype = 0x8000_0008;
    assert_eq!(parse(&image.build()).arch(), Arch::Amd64h);
    image.cpusubtype = 0x0001_0003;
    assert_eq!(parse(&image.build()).arch(), Arch::Amd64Unknown);
}

#[test]
fn identifiers_use_the_same_uuid() {
    let uuid = [
        0x67, 0xe9, 0x24, 0x7c, 0x81, 0x4e, 0x39, 0x2b, 0xa0, 0x27, 0xdb, 0xde, 0x67, 0x48, 0xfc,
        0xbf,
    ];
    let mut image = Image::new();
    image.uuids.push(uuid);
    image.segments.push(segment("__TEXT", 0x1000, vec![]));
    for variant in variants(&image) {
        let data = variant.build();
        let object = parse(&data);
        let code_id = object.code_id().expect("a code identifier");
        assert_eq!(code_id.as_str(), "67e9247c814e392ba027dbde6748fcbf");
        assert_eq!(object.debug_id().uuid(), uuid);
        assert_eq!(object.debug_id().appendix(), 0);
    }
}

#[test]
fn first_uuid_counts() {
    let mut image = Image::new();
    image.uuids.push([0xab; 16]);
    image.uuids.push([0xcd; 16]);
    let data = image.build();
    assert_eq!(parse(&data).debug_id().uuid(), [0xab; 16]);
}

#[test]
fn no_uuid_gives_no_identifier() {
    let data = Image::new().build();
    let object = parse(&data);
    assert!(object.code_id().is_none());
    assert_eq!(object.debug_id().uuid(), [0; 16]);
    assert_eq!(object.debug_id().appendix(), 0);
}

#[test]
fn load_address_is_that_of_the_first_text_segment() {
    let mut image = Image::new();
    image.segments.push(segment("__PAGEZERO", 0x10, vec![]));
    image.segments.push(segment("__TEXT2", 0x20, vec![]));
    image.segments.push(segment("__TEX", 0x30, vec![]));
    let mut broken = segment("", 0x40, vec![]);
    broken.name = vec![b'_', b'_', 0xff];
    image.segments.push(broken);
    for variant in variants(&image) {
        assert_eq!(parse(&variant.build()).load_address(), 0);
    }
    image.segments.push(segment("__TEXT", 0xffff_0000, vec![]));
    image.segments.push(segment("__TEXT", 0x60, vec![]));
    for variant in variants(&image) {
        assert_eq!(parse(&variant.build()).load_address(), 0xffff_0000);
    }
    let mut image = Image::new();
    image
        .segments
        .push(segment("__TEXT", 0x1_0000_0000, vec![]));
    assert_eq!(parse(&image.build()).load_address(), 0x1_0000_0000);
}

#[test]
fn symbols_are_those_of_functions() {
    let mut image = Image::new();
    image.segments.push(segment(
        "__TEXT",
        0x1000,
        vec![code("__text"), code("__cstring"), code("__stubs")],
    ));
    image.segments.push(segment("__DATA", 0x2000, vec![code("__text")]));
    image.symbols = Some(vec![
        nlist("_main", 0x0f, 1, 0x1010),
        nlist("local", 0x0e, 1, 0x1000),
        nlist("stub", 0x0e, 3, 0x1020),
        nlist("string", 0x0e, 2, 0x1018),
        nlist("data", 0x0e, 4, 0x2000),
        nlist("beyond", 0x0e, 5, 0x2000),
        nlist("undefined", 0x01, 0, 0x1010),
        nlist("no_section", 0x0e, 0, 0x1010),
        nlist("absolute", 0x02, 1, 0x1010),
        nlist("debug", 0x2e, 1, 0x1010),
        nlist("before", 0x0e, 1, 0xfff),
        nlist("private", 0x1e, 1, 0x1040),
    ]);
    for variant in variants(&image) {
        let data = variant.build();
        let object = parse(&data);
        assert!(object.has_symbols());
        assert_eq!(
            symbols(&object),
            vec![
                function("main", 0x10),
                function("local", 0),
                function("stub", 0x20),
                function("private", 0x40),
            ]
        );
        assert!(!object.requires_symbolmap());
    }
}

#[test]
fn one_underscore_is_trimmed() {
    let mut image = Image::new();
    image
        .segments
        .push(segment("__TEXT", 0, vec![code("__text")]));
    image.symbols = Some(vec![
        nlist("__ZN3foo3barEv", 0x0e, 1, 1),
        nlist("_", 0x0e, 1, 2),
        nlist("", 0x0e, 1, 3),
        nlist("-[Foo bar]", 0x0e, 1, 4),
        nlist("_\u{e9}t\u{e9}", 0x0e, 1, 5),
        nlist("\u{e9}_", 0x0e, 1, 6),
    ]);
    let data = image.build();
    assert_eq!(
        symbols(&parse(&data)),
        vec![
            function("_ZN3foo3barEv", 1),
            function("", 2),
            function("", 3),
            function("-[Foo bar]", 4),
            function("\u{e9}t\u{e9}", 5),
            function("\u{e9}_", 6),
        ]
    );
}

#[test]
fn corrupt_entries_are_passed_over() {
    let mut image = Image::new();
    image
        .segments
        .push(segment("__TEXT", 0, vec![code("__text")]));
    let mut broken = nlist("", 0x0e, 1, 2);
    broken.name = vec![0xff, 0xfe];
    image.symbols = Some(vec![
        nlist("one", 0x0e, 1, 1),
        broken,
        nlist("three", 0x0e, 1, 3),
    ]);
    let mut data = image.build();
    assert_eq!(
        symbols(&parse(&data)),
        vec![function("one", 1), function("three", 3)]
    );
    // The table announces more entries than the file holds.
    let symtab = 32 + 72 + 80;
    data[symtab + 12] = 200;
    let object = parse(&data);
    let found = symbols(&object);
    assert_eq!(&found[..2], &[function("one", 1), function("three", 3)]);
}

#[test]
fn sections_are_counted_over_all_segments() {
    let mut image = Image::new();
    image.segments.push(segment("__PAGEZERO", 0, vec![]));
    image.segments.push(segment(
        "__DATA",
        0x8000,
        vec![code("__data"), code("__bss")],
    ));
    image.segments.push(segment(
        "__TEXT",
        0x100,
        vec![code("__const"), code("__text")],
    ));
    image
        .segments
        .push(segment("__TEXT", 0x200, vec![code("__stubs")]));
    image.symbols = Some(vec![
        nlist("_a", 0x0e, 1, 0x300),
        nlist("_b", 0x0e, 2, 0x300),
        nlist("_c", 0x0e, 3, 0x300),
        nlist("_d", 0x0e, 4, 0x300),
        nlist("_e", 0x0e, 5, 0x308),
    ]);
    for variant in variants(&image) {
        let data = variant.build();
        assert_eq!(
            symbols(&parse(&data)),
            vec![function("d", 0x200), function("e", 0x208)]
        );
    }
}

#[test]
fn sections_behind_a_broken_one_are_not_counted() {
    let mut image = Image::new();
    let mut text = segment("__TEXT", 0, vec![code("__text")]);
    text.more = 100;
    image.segments.push(text);
    image
        .segments
        .push(segment("__TEXT", 0, vec![code("__text")]));
    image.symbols = Some(vec![
        nlist("_first", 0x0e, 1, 0x10),
        nlist("_second", 0x0e, 102, 0x20),
    ]);
    let data = image.build();
    assert_eq!(symbols(&parse(&data)), vec![function("first", 0x10)]);
}

#[test]
fn no_symbol_table_gives_no_symbols() {
    let mut image = Image::new();
    image
        .segments
        .push(segment("__TEXT", 0, vec![code("__text")]));
    let data = image.build();
    let object = parse(&data);
    assert!(!object.has_symbols());
    assert_eq!(symbols(&object), vec![]);
    assert_eq!(object.symbol_map().symbols(), &[]);
}

#[test]
fn empty_symbol_table_is_a_symbol_table() {
    let mut image = Image::new();
    image.symbols = Some(vec![]);
    let data = image.build();
    let object = parse(&data);
    assert!(object.has_symbols());
    assert_eq!(symbols(&object), vec![]);
}

#[test]
fn symbol_map_is_ordered_and_has_sizes() {
    let mut image = Image::new();
    image
        .segments
        .push(segment("__TEXT", 0x1000, vec![code("__text")]));
    image.symbols = Some(vec![
        nlist("_c", 0x0e, 1, 0x1030),
        nlist("_a", 0x0e, 1, 0x1000),
        nlist("_b", 0x0e, 1, 0x1008),
        nlist("_also_b", 0x0e, 1, 0x1008),
    ]);
    let data = image.build();
    let object = parse(&data);
    let expected = [
        Symbol {
            name: Some("a"),
            address: 0,
            size: 8,
        },
        Symbol {
            name: Some("b"),
            address: 8,
            size: 0x28,
        },
        Symbol {
            name: Some("c"),
            address: 0x30,
            size: 0,
        },
    ];
    assert_eq!(object.symbol_map().symbols(), &expected);
}

#[test]
fn debug_session_is_what_its_parser_gives() {
    let mut image = Image::new();
    image
        .segments
        .push(segment("__TEXT", 0x1000, vec![code("__text")]));
    image.symbols = Some(vec![
        nlist("_b", 0x0e, 1, 0x1008),
        nlist("_a", 0x0e, 1, 0x1000),
    ]);
    let data = image.build();
    let object = parse(&data);
    let session: Result<(usize, Vec<Symbol>, u64), ()> =
        object.debug_session(|object, symbols, load_address| {
            Ok((
                object.data().len(),
                symbols.symbols().to_vec(),
                load_address,
            ))
        });
    let (len, symbols, load_address) = session.unwrap();
    assert_eq!(len, data.len());
    assert_eq!(symbols, object.symbol_map().symbols());
    assert_eq!(symbols[0].name(), Some("a"));
    assert_eq!(symbols[0].size, 8);
    assert_eq!(load_address, 0x1000);
}

#[test]
fn debug_session_fails_as_its_parser_does() {
    let data = Image::new().build();
    let object = parse(&data);
    let session: Result<(), &str> = object.debug_session(|_, symbols, load_address| {
        assert_eq!(symbols.symbols(), &[]);
        assert_eq!(load_address, 0);
        Err("no session")
    });
    assert_eq!(session, Err("no session"));
}

#[test]
fn hidden_symbols_require_a_symbolmap() {
    let mut image = Image::new();
    image
        .segments
        .push(segment("__TEXT", 0, vec![code("__text")]));
    image.symbols = Some(vec![
        nlist("_main", 0x0e, 1, 1),
        nlist("___?hidden#12_", 0x0e, 1, 2),
    ]);
    let data = image.build();
    let object = parse(&data);
    assert_eq!(symbols(&object)[1], function("__?hidden#12_", 2));
    assert!(object.requires_symbolmap());
    // The prefix counts after the underscore has been trimmed.
    image.symbols = Some(vec![
        nlist("__?hidden#12_", 0x0e, 1, 1),
        nlist("x__?hidden#12_", 0x0e, 1, 1),
        nlist("___?hidden", 0x0e, 1, 1),
        nlist("___?hidden#12_", 0x01, 0, 1),
    ]);
    let data = image.build();
    assert!(!parse(&data).requires_symbolmap());
}

#[test]
fn raw_section_gives_the_contents() {
    let mut image = Image::new();
    let mut info = section("__debug_info", Contents::Bytes(vec![1, 2, 3, 4, 5]));
    info.addr = 0x7000;
    info.align = 3;
    image.segments.push(segment("__TEXT", 0, vec![code("__text")]));
    image.segments.push(segment(
        "__DWARF",
        0,
        vec![
            section("__debug_line", Contents::Bytes(vec![9; 8])),
            info,
            section("__debug_info", Contents::Bytes(vec![8; 8])),
        ],
    ));
    for variant in variants(&image) {
        let data = variant.build();
        let object = parse(&data);
        assert!(object.can_find_section("debug_info"));
        let found = object.raw_section("debug_info").expect("a section");
        assert_eq!(found.data, &[1, 2, 3, 4, 5]);
        assert_eq!(found.address, 0x7000);
        assert_eq!(found.align, 3);
        let offset = found.offset as usize;
        assert_eq!(&data[offset..offset + 5], found.data);
        assert!(object.has_section("debug_info"));
        assert!(object.has_section("text"));
        assert!(object.has_debug_info());
        assert!(!object.has_unwind_info());
        assert!(object.raw_section("__debug_info").is_none());
        assert!(object.raw_section("debug").is_none());
        assert!(object.raw_section("debug_info2").is_none());
        assert!(object.raw_section("").is_none());
        assert!(!object.has_section("debug_str"));
    }
}

#[test]
fn first_two_bytes_of_section_names_do_not_count() {
    let mut image = Image::new();
    image.segments.push(segment(
        "__DWARF",
        0,
        vec![
            section("", Contents::Bytes(vec![1])),
            section("a", Contents::Bytes(vec![2])),
            section("xy", Contents::Bytes(vec![3])),
            section("xyz", Contents::Bytes(vec![4])),
            section("\u{e9}nil", Contents::Bytes(vec![5])),
            section("0123456789abcdef", Contents::Bytes(vec![6])),
        ],
    ));
    let data = image.build();
    let object = parse(&data);
    assert_eq!(object.raw_section("").unwrap().data, &[3]);
    assert_eq!(object.raw_section("z").unwrap().data, &[4]);
    assert_eq!(object.raw_section("nil").unwrap().data, &[5]);
    assert_eq!(object.raw_section("23456789abcdef").unwrap().data, &[6]);
}

#[test]
fn removed_sections_are_not_found() {
    let mut image = Image::new();
    image.segments.push(segment(
        "__DWARF",
        0,
        vec![
            section("__debug_info", Contents::At(0, 8)),
            section("__debug_info", Contents::Bytes(vec![1; 8])),
        ],
    ));
    let data = image.build();
    let object = parse(&data);
    assert!(object.can_find_section("debug_info"));
    assert!(object.raw_section("debug_info").is_none());
    assert!(!object.has_debug_info());
}

#[test]
fn contents_beyond_the_file_are_empty() {
    let mut image = Image::new();
    let mut zero = section("__zero", Contents::Bytes(vec![1; 8]));
    zero.flags = 0x1;
    image.segments.push(segment(
        "__DWARF",
        0,
        vec![
            section("__far", Contents::At(0x1000_0000, 8)),
            section("__long", Contents::At(40, 0x1000_0000)),
            zero,
        ],
    ));
    for variant in variants(&image) {
        let data = variant.build();
        let object = parse(&data);
        assert_eq!(object.raw_section("far").unwrap().data, &[] as &[u8]);
        assert_eq!(object.raw_section("far").unwrap().offset, 0x1000_0000);
        assert_eq!(object.raw_section("long").unwrap().data, &[] as &[u8]);
        assert_eq!(object.raw_section("zero").unwrap().data, &[] as &[u8]);
    }
}

#[test]
fn names_that_cannot_be_split_end_the_search() {
    let mut image = Image::new();
    image.segments.push(segment(
        "__DWARF",
        0,
        vec![
            section("__debug_info", Contents::Bytes(vec![1])),
            section("_\u{e9}", Contents::Bytes(vec![2])),
            section("__debug_line", Contents::Bytes(vec![3])),
        ],
    ));
    let data = image.build();
    let object = parse(&data);
    assert!(object.can_find_section("debug_info"));
    assert!(object.has_debug_info());
    assert!(!object.can_find_section("debug_line"));
    assert!(!object.can_find_section("eh_frame"));
}

#[test]
fn names_that_are_no_text_are_passed_over() {
    let mut image = Image::new();
    let mut broken = section("", Contents::Bytes(vec![1]));
    broken.name = vec![b'_', b'_', 0xff];
    image.segments.push(segment(
        "__DWARF",
        0,
        vec![broken, section("__eh_frame", Contents::Bytes(vec![3]))],
    ));
    let data = image.build();
    let object = parse(&data);
    assert!(object.can_find_section("eh_frame"));
    assert!(object.has_unwind_info());
}

#[test]
fn unwind_info_is_in_either_section() {
    for name in ["__eh_frame", "__debug_frame"].iter() {
        let mut image = Image::new();
        image
            .segments
            .push(segment("__TEXT", 0, vec![code("__text"), code(name)]));
        let data = image.build();
        let object = parse(&data);
        assert!(object.has_unwind_info());
        assert!(!object.has_debug_info());
    }
}

#[test]
fn entry_point_is_checked() {
    let mut image = Image::new();
    image.entry = Some(0x10);
    // No segment gives the address of the entry point.
    assert!(is_bad(&image.build()));
    let mut text = segment("__TEXT", 0x1000, vec![]);
    text.fileoff = 0x1000;
    image.segments.push(text);
    for variant in variants(&image) {
        assert_eq!(parse(&variant.build()).load_address(), 0x1000);
    }
    // The file is mapped before the start of the address space.
    image.segments[0].fileoff = 0x1001;
    for variant in variants(&image) {
        assert!(!entry_point_fits(&variant.build()));
    }
    // The address has more than 64 bits.
    image.segments[0].fileoff = 0;
    image.entry = Some(u64::max_value() - 0x1000);
    for variant in variants(&image) {
        assert!(entry_point_fits(&variant.build()));
    }
    image.entry = Some(u64::max_value() - 0xfff);
    for variant in variants(&image) {
        assert!(!entry_point_fits(&variant.build()));
    }
    // The first segment of the name counts.
    image.segments.insert(0, segment("__TEXT", 0, vec![]));
    for variant in variants(&image) {
        assert!(entry_point_fits(&variant.build()));
    }
}
