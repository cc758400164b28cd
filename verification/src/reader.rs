//! The calls into `goblin`, the crate that reads the Mach-O format.
//!
//! Every function of this module states what a function of `goblin` does, without a proof. The
//! statements are made over the bytes that `goblin` reads, in the terms of
//! [`layout`](crate::layout), and for machines with 64-bit addresses.
use crate::entry;
use crate::layout;
use goblin::error::Error;
use goblin::mach::fat::FatArch;
use goblin::mach::load_command::CommandVariant;
use goblin::mach::segment::{Section, SectionIterator};
use goblin::mach::symbols::{Nlist, SymbolIterator};
use goblin::mach::{FatArchIterator, MachO, MultiArch};
use vstd::prelude::*;

verus! {

/// The error that `goblin` reports.
#[verifier::external_type_specification]
#[verifier::external_body]
pub struct ExError(Error);

/// A Mach-O object that `goblin` has read.
#[verifier::external_type_specification]
#[verifier::external_body]
pub struct ExMachO<'a>(MachO<'a>);

/// An iterator of `goblin` over the sections of a segment.
#[verifier::external_type_specification]
#[verifier::external_body]
pub struct ExSectionIterator<'a>(SectionIterator<'a>);

/// An iterator of `goblin` over the entries of a symbol table.
#[verifier::external_type_specification]
#[verifier::external_body]
pub struct ExSymbolIterator<'a>(SymbolIterator<'a>);

/// A fat container that `goblin` has read.
#[verifier::external_type_specification]
#[verifier::external_body]
pub struct ExMultiArch<'a>(MultiArch<'a>);

/// An iterator of `goblin` over the architectures of a fat container.
#[verifier::external_type_specification]
#[verifier::external_body]
pub struct ExFatArchIterator<'a>(FatArchIterator<'a>);

/// A section that `goblin` hands out.
#[verifier::external_type_specification]
#[verifier::external_body]
pub struct ExSection(Section);

/// A symbol table entry that `goblin` hands out.
#[verifier::external_type_specification]
#[verifier::external_body]
pub struct ExNlist(Nlist);

/// A record of a fat container that `goblin` hands out.
#[verifier::external_type_specification]
#[verifier::external_body]
pub struct ExFatArch(FatArch);

/// The error that `goblin::mach::MachO::parse` reports for these bytes, or none if it reads an
/// object from them.
pub uninterp spec fn object_failure(data: Seq<u8>) -> Option<Error>;

/// Whether `goblin::mach::MachO::parse` reads an object from these bytes.
pub open spec fn is_object(data: Seq<u8>) -> bool {
    object_failure(data) is None
}

/// The error that `goblin::mach::MultiArch::new` reports for these bytes, if they are too short.
pub uninterp spec fn container_error(data: Seq<u8>) -> Error;

/// The error that `goblin::mach::FatArchIterator` reports for the record with this index, if the
/// container ends before it.
pub uninterp spec fn record_error(data: Seq<u8>, index: int) -> Error;

/// The bytes from which an object has been read.
pub uninterp spec fn object_bytes(macho: MachO) -> Seq<u8>;

/// The bytes from which a fat container has been read.
pub uninterp spec fn container_bytes(fat: MultiArch) -> Seq<u8>;

/// The items that an iterator over sections has yet to hand out.
pub uninterp spec fn sections_left(sections: SectionIterator) -> Seq<
    Option<layout::SectionLayout>,
>;

/// The items that an iterator over a symbol table has yet to hand out.
pub uninterp spec fn symbols_left(symbols: SymbolIterator) -> Seq<Option<layout::SymbolLayout>>;

/// The items that an iterator over the architectures of a fat container has yet to hand out.
pub uninterp spec fn arches_left(arches: FatArchIterator) -> Seq<
    Result<layout::ArchLayout, Error>,
>;

/// What the first bytes of a file show.
pub enum Signature {
    /// The file is a Mach-O object.
    Object,
    /// The file is a fat container that announces this many objects.
    Container(usize),
    /// The file is something else, or too short.
    Other,
}

/// The fields of the header that matter here.
pub struct Header {
    /// The CPU type.
    pub cputype: u32,
    /// The CPU subtype without its capability bits.
    pub cpusubtype: u32,
    /// The file type.
    pub filetype: u32,
    /// Whether numbers are stored with the least significant byte first.
    pub little_endian: bool,
}

/// The fields of a segment command that matter here.
pub struct SegmentHeader {
    /// The name, if it is valid UTF-8.
    pub name: Option<String>,
    /// The address in the address space of the image.
    pub vmaddr: u64,
    /// The number of sections.
    pub nsects: u32,
}

/// The fields of a section header that matter here, with the contents of the section.
pub struct SectionEntry<'d> {
    /// The name, if it is valid UTF-8.
    pub name: Option<String>,
    /// The address in the address space of the image.
    pub addr: u64,
    /// Where the contents start in the file.
    pub offset: u32,
    /// The alignment.
    pub align: u32,
    /// The contents.
    pub data: &'d [u8],
}

/// The fields of a symbol table entry that matter here.
pub struct SymbolEntry<'d> {
    /// The name.
    pub name: &'d str,
    /// Whether the entry is for debuggers only.
    pub stab: bool,
    /// The kind of the symbol.
    pub kind: u8,
    /// The number of the section, counted from one, or zero for none.
    pub section: usize,
    /// The value.
    pub value: u64,
}

/// The place of an object in a fat container.
pub struct ArchEntry {
    /// Where the object starts.
    pub offset: u32,
    /// The length of the object.
    pub size: u32,
}

/// What the first bytes of a file show: at least 16 bytes must be there, and the magic number
/// tells the rest.
pub open spec fn signature(b: Seq<u8>) -> Signature {
    if b.len() >= 16 && layout::has_object_magic(b) {
        Signature::Object
    } else if b.len() >= 16 && layout::has_fat_magic(b) {
        Signature::Container(layout::fat_count(b) as usize)
    } else {
        Signature::Other
    }
}

/// Whether an optional text is the given one.
pub open spec fn same_text(text: Option<String>, layout: Option<Seq<char>>) -> bool {
    match (text, layout) {
        (Some(t), Some(l)) => t@ == l,
        (None, None) => true,
        _ => false,
    }
}

/// Whether an item of an iterator over sections is the given one.
pub open spec fn reads_section(
    item: Result<SectionEntry, Error>,
    layout: Option<layout::SectionLayout>,
) -> bool {
    match (item, layout) {
        (Ok(s), Some(l)) => {
            &&& same_text(s.name, l.name)
            &&& s.addr == l.addr
            &&& s.offset == l.offset
            &&& s.align == l.align
            &&& s.data@ == l.data
        },
        (Err(_), None) => true,
        _ => false,
    }
}

/// Whether an item of an iterator over a symbol table is the given one.
pub open spec fn reads_symbol(
    item: Result<SymbolEntry, Error>,
    layout: Option<layout::SymbolLayout>,
) -> bool {
    match (item, layout) {
        (Ok(s), Some(l)) => {
            &&& s.name@ == l.name
            &&& s.stab == (l.n_type & 0xe0 != 0)
            &&& s.kind == l.n_type & 0x0e
            &&& s.section == l.n_sect
            &&& s.value == l.n_value
        },
        (Err(_), None) => true,
        _ => false,
    }
}

/// What reading the record with this index gives: the place of an object, or the error if the
/// container ends before the record.
pub open spec fn record(b: Seq<u8>, index: int) -> Result<layout::ArchLayout, Error> {
    match layout::fat_arch_at(b, index) {
        Some(arch) => Ok(arch),
        None => Err(record_error(b, index)),
    }
}

/// Whether an item of an iterator over architectures is the given one.
pub open spec fn reads_arch(
    item: Result<ArchEntry, Error>,
    layout: Result<layout::ArchLayout, Error>,
) -> bool {
    match (item, layout) {
        (Ok(a), Ok(l)) => a.offset == l.offset && a.size == l.size,
        (Err(e), Err(l)) => e == l,
        _ => false,
    }
}

/// `goblin::peek`, on a cursor at the start of `data`. It looks at the first 16 bytes, fails if
/// there are fewer, and goes by the magic number that they start with.
#[verifier::external_body]
pub(crate) fn peek(data: &[u8]) -> (res: Signature)
    ensures
        res == signature(data@),
{
    match goblin::peek(&mut std::io::Cursor::new(data)) {
        Ok(goblin::Hint::Mach(_)) => Signature::Object,
        Ok(goblin::Hint::MachFat(count)) => Signature::Container(count),
        _ => Signature::Other,
    }
}

/// `goblin::mach::MachO::parse`, at the start of `data`. Which files it accepts goes by a name,
/// and so does the error for the others.
/// An accepted file has a header and all of the load commands that the header announces, and a text
/// segment if it has an entry point. A file is accepted if that is so and each command is one of
/// those that matter here. Whether a file with other commands is accepted is left open: they may
/// refer to texts and thread states that cannot be read.
///
/// It adds up the address of the entry point without a check, so that must not overflow.
#[verifier::external_body]
pub(crate) fn parse_object<'d>(data: &'d [u8]) -> (res: Result<MachO<'d>, Error>)
    requires
        entry::entry_fits(data@),
    ensures
        res is Ok <==> object_failure(data@) is None,
        res matches Ok(macho) ==> object_bytes(macho) == data@,
        res matches Err(error) ==> object_failure(data@) == Some(error),
        res is Ok ==> layout::has_all_commands(data@) && entry::has_text_for_main(data@),
        layout::is_plain_file(data@) && entry::has_text_for_main(data@) ==> res is Ok,
{
    MachO::parse(data, 0)
}

/// The fields `header` and `little_endian` of `goblin::mach::MachO`, with the methods `cputype`
/// and `cpusubtype` of the header. The latter leaves out the capability bits.
#[verifier::external_body]
pub(crate) fn object_header(macho: &MachO) -> (res: Header)
    requires
        is_object(object_bytes(*macho)),
    ensures
        res.cputype == layout::cpu_type(object_bytes(*macho)),
        res.cpusubtype == layout::cpu_subtype(object_bytes(*macho)),
        res.filetype == layout::file_type(object_bytes(*macho)),
        res.little_endian == layout::is_little_endian(object_bytes(*macho)),
{
    Header {
        cputype: macho.header.cputype(),
        cpusubtype: macho.header.cpusubtype(),
        filetype: macho.header.filetype,
        little_endian: macho.little_endian,
    }
}

/// The length of the field `load_commands` of `goblin::mach::MachO`: it holds all load commands.
#[verifier::external_body]
pub(crate) fn command_count(macho: &MachO) -> (res: usize)
    requires
        is_object(object_bytes(*macho)),
    ensures
        res == layout::command_count(object_bytes(*macho)),
{
    macho.load_commands.len()
}

/// An element of the field `load_commands` of `goblin::mach::MachO`: the bytes in an identifier
/// command, and nothing for any other command.
#[verifier::external_body]
pub(crate) fn command_uuid(macho: &MachO, i: usize) -> (res: Option<[u8; 16]>)
    requires
        is_object(object_bytes(*macho)),
        i < layout::command_count(object_bytes(*macho)),
    ensures
        res is Some <==> layout::command_uuid(object_bytes(*macho), i as int) is Some,
        res matches Some(uuid) ==> layout::command_uuid(object_bytes(*macho), i as int) == Some(
            uuid@,
        ),
{
    match macho.load_commands[i].command {
        CommandVariant::Uuid(ref command) => Some(command.uuid),
        _ => None,
    }
}

/// The length of the field `segments` of `goblin::mach::MachO`: it holds all segments.
#[verifier::external_body]
pub(crate) fn segment_count(macho: &MachO) -> (res: usize)
    requires
        is_object(object_bytes(*macho)),
    ensures
        res == layout::segments(object_bytes(*macho)).len(),
{
    macho.segments.len()
}

/// An element of the field `segments` of `goblin::mach::MachO`, with its method `name`, which
/// takes the bytes before the first zero byte for text.
#[verifier::external_body]
pub(crate) fn segment_header(macho: &MachO, i: usize) -> (res: SegmentHeader)
    requires
        is_object(object_bytes(*macho)),
        i < layout::segments(object_bytes(*macho)).len(),
    ensures
        same_text(res.name, layout::segments(object_bytes(*macho))[i as int].name),
        res.vmaddr == layout::segments(object_bytes(*macho))[i as int].vmaddr,
        res.nsects == layout::segments(object_bytes(*macho))[i as int].nsects,
{
    let segment = &macho.segments[i];
    SegmentHeader {
        name: segment.name().ok().map(String::from),
        vmaddr: segment.vmaddr,
        nsects: segment.nsects,
    }
}

/// `into_iter` of an element of the field `segments` of `goblin::mach::MachO`: an iterator over as
/// many section headers as the segment announces, which follow its command.
#[verifier::external_body]
pub(crate) fn segment_sections<'d>(macho: &MachO<'d>, i: usize) -> (res: SectionIterator<'d>)
    requires
        is_object(object_bytes(*macho)),
        i < layout::segments(object_bytes(*macho)).len(),
    ensures
        sections_left(res) == layout::segment_sections(
            object_bytes(*macho),
            layout::segments(object_bytes(*macho))[i as int],
        ),
{
    (&macho.segments[i]).into_iter()
}

/// `next` of `goblin::mach::segment::SectionIterator`, with the method `name` of the section that
/// it hands out. It fails for each section whose header lies beyond the end of the file.
#[verifier::external_body]
pub(crate) fn next_section<'d>(sections: &mut SectionIterator<'d>) -> (res: Option<
    Result<SectionEntry<'d>, Error>,
>)
    ensures
        res is None <==> sections_left(*old(sections)).len() == 0,
        res is None ==> sections_left(*final(sections)) == sections_left(*old(sections)),
        res matches Some(item) ==> {
            &&& reads_section(item, sections_left(*old(sections))[0])
            &&& sections_left(*final(sections)) == sections_left(*old(sections)).drop_first()
        },
{
    let (section, data) = match sections.next()? {
        Ok(pair) => pair,
        Err(error) => return Some(Err(error)),
    };
    Some(Ok(SectionEntry {
        name: section.name().ok().map(String::from),
        addr: section.addr,
        offset: section.offset,
        align: section.align,
        data,
    }))
}

/// The field `symbols` of `goblin::mach::MachO`: it is there if a load command locates a symbol
/// table.
#[verifier::external_body]
pub(crate) fn has_symbol_table(macho: &MachO) -> (res: bool)
    requires
        is_object(object_bytes(*macho)),
    ensures
        res == layout::symtab(object_bytes(*macho)) is Some,
{
    macho.symbols.is_some()
}

/// `goblin::mach::MachO::symbols`: an iterator over as many symbol table entries as the load
/// command announces, or over none if there is no such command.
#[verifier::external_body]
pub(crate) fn symbol_table<'d>(macho: &MachO<'d>) -> (res: SymbolIterator<'d>)
    requires
        is_object(object_bytes(*macho)),
    ensures
        symbols_left(res) == layout::symbol_entries(object_bytes(*macho)),
{
    macho.symbols()
}

/// `next` of `goblin::mach::symbols::SymbolIterator`, with the methods `is_stab` and `get_type` of
/// the entry that it hands out. It fails for each entry that lies beyond the end of the file, or
/// whose name does, or is no valid UTF-8.
#[verifier::external_body]
pub(crate) fn next_symbol<'d>(symbols: &mut SymbolIterator<'d>) -> (res: Option<
    Result<SymbolEntry<'d>, Error>,
>)
    ensures
        res is None <==> symbols_left(*old(symbols)).len() == 0,
        res is None ==> symbols_left(*final(symbols)) == symbols_left(*old(symbols)),
        res matches Some(item) ==> {
            &&& reads_symbol(item, symbols_left(*old(symbols))[0])
            &&& symbols_left(*final(symbols)) == symbols_left(*old(symbols)).drop_first()
        },
{
    let (name, entry) = match symbols.next()? {
        Ok(pair) => pair,
        Err(error) => return Some(Err(error)),
    };
    Some(Ok(SymbolEntry {
        name,
        stab: entry.is_stab(),
        kind: entry.get_type(),
        section: entry.n_sect,
        value: entry.n_value,
    }))
}

/// `goblin::mach::MultiArch::new`: it reads the eight bytes of the header of a fat container, and
/// does not ask for the magic number. The error for fewer bytes goes by a name.
#[verifier::external_body]
pub(crate) fn parse_container<'d>(data: &'d [u8]) -> (res: Result<MultiArch<'d>, Error>)
    ensures
        res is Ok <==> data@.len() >= 8,
        res matches Ok(fat) ==> container_bytes(fat) == data@,
        res matches Err(error) ==> error == container_error(data@),
{
    MultiArch::new(data)
}

/// The field `narches` of `goblin::mach::MultiArch`.
#[verifier::external_body]
pub(crate) fn arch_count(fat: &MultiArch) -> (res: usize)
    requires
        container_bytes(*fat).len() >= 8,
    ensures
        res == layout::fat_count(container_bytes(*fat)),
{
    fat.narches
}

/// `goblin::mach::MultiArch::iter_arches`: an iterator over as many records as the container
/// announces. The errors for records beyond the end of the container go by a name.
#[verifier::external_body]
pub(crate) fn arches<'a>(fat: &'a MultiArch) -> (res: FatArchIterator<'a>)
    requires
        container_bytes(*fat).len() >= 8,
    ensures
        arches_left(res).len() == layout::fat_count(container_bytes(*fat)),
        forall|i: int|
            0 <= i < layout::fat_count(container_bytes(*fat)) ==> #[trigger] arches_left(res)[i]
                == match layout::fat_arch_at(container_bytes(*fat), i) {
                Some(arch) => Ok(arch),
                None => Err(record_error(container_bytes(*fat), i)),
            },
{
    fat.iter_arches()
}

/// `next` of `goblin::mach::FatArchIterator`. It fails for each record that lies beyond the end of
/// the container.
#[verifier::external_body]
pub(crate) fn next_arch(arches: &mut FatArchIterator) -> (res: Option<Result<ArchEntry, Error>>)
    ensures
        res is None <==> arches_left(*old(arches)).len() == 0,
        res is None ==> arches_left(*final(arches)) == arches_left(*old(arches)),
        res matches Some(item) ==> {
            &&& reads_arch(item, arches_left(*old(arches))[0])
            &&& arches_left(*final(arches)) == arches_left(*old(arches)).drop_first()
        },
{
    match arches.next()? {
        Ok(arch) => Some(Ok(ArchEntry { offset: arch.offset, size: arch.size })),
        Err(error) => Some(Err(error)),
    }
}

/// `nth` of `goblin::mach::FatArchIterator`, which passes over `n` items.
#[verifier::external_body]
pub(crate) fn nth_arch(arches: &mut FatArchIterator, n: usize) -> (res: Option<
    Result<ArchEntry, Error>,
>)
    ensures
        res is None <==> arches_left(*old(arches)).len() <= n,
        res is None ==> arches_left(*final(arches)).len() == 0,
        res matches Some(item) ==> {
            &&& reads_arch(item, arches_left(*old(arches))[n as int])
            &&& arches_left(*final(arches)) == arches_left(*old(arches)).skip(n + 1)
        },
{
    match arches.nth(n)? {
        Ok(arch) => Some(Ok(ArchEntry { offset: arch.offset, size: arch.size })),
        Err(error) => Some(Err(error)),
    }
}

} // verus!
