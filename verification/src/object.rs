//! Mach Object containers.
use crate::base::{Arch, DwarfSection, Endian, FileFormat, ObjectKind};
use crate::base;
use crate::entry;
use crate::ident::{CodeId, DebugId};
use crate::image;
use crate::indices;
use crate::indices::SectionIndices;
use crate::layout;
use crate::reader;
use crate::reader::{SectionEntry, Signature};
use crate::symbol_map;
use crate::symbol_map::SymbolMap;
use crate::symbols::{MachOSymbolIterator, Symbol};
use crate::text;
use goblin::error::Error;
use goblin::mach::MachO;
use vstd::prelude::*;

verus! {

/// An error when dealing with [`MachObject`].
#[derive(Debug)]
pub enum MachError {
    /// The data in the MachO file could not be parsed.
    BadObject(Error),
}

/// Whether a file could be an object, by its length and its magic number.
pub open spec fn has_object_signature(b: Seq<u8>) -> bool {
    b.len() >= 16 && layout::has_object_magic(b)
}

/// Whether a result is that of reading an object from the data. Only data with a header and all of
/// its load commands is an object, and there must be a text segment if there is an entry point.
/// Such data is an object if the load commands are of the plain kinds. A failure carries the error
/// that reading the data gives.
pub open spec fn is_parse_of(data: Seq<u8>, res: Result<MachObject, MachError>) -> bool {
    &&& res is Ok <==> reader::is_object(data)
    &&& res matches Ok(object) ==> object@ == data && layout::has_all_commands(data)
        && entry::has_text_for_main(data)
    &&& layout::is_plain_file(data) && entry::has_text_for_main(data) ==> res is Ok
    &&& res matches Err(MachError::BadObject(error)) ==> reader::object_failure(data) == Some(error)
}

/// Whether these are the symbols and the address that a debugging session of the object starts
/// from: its symbol map and its load address.
pub open spec fn is_session_start(
    b: Seq<u8>,
    symbols: Seq<image::SymbolModel>,
    load_address: u64,
) -> bool {
    symbol_map::is_map_of(image::symbols(b), symbols) && load_address == image::load_address(b)
}

/// How a section name compares with another one.
enum NameMatch {
    /// The names are the same.
    Same,
    /// The names differ.
    Other,
    /// The names differ, and the first cannot be split.
    Unsplittable,
}

/// What comes of the search for a section.
enum Lookup<'d> {
    /// The first section with the name.
    Found(SectionEntry<'d>),
    /// There is no section with the name.
    Missing,
    /// A name on the way cannot be split.
    Unsplittable,
}

/// Mach Object containers, used for executables and debug companions on macOS and iOS.
///
/// The view of an object is the contents of its file.
pub struct MachObject<'d> {
    macho: MachO<'d>,
    data: &'d [u8],
}

impl<'d> View for MachObject<'d> {
    type V = Seq<u8>;

    closed spec fn view(&self) -> Seq<u8> {
        self.data@
    }
}

impl<'d> MachObject<'d> {
    /// The object has been read from the data.
    #[verifier::type_invariant]
    spec fn is_read_from_data(self) -> bool {
        &&& reader::object_bytes(self.macho) == self.data@
        &&& reader::is_object(self.data@)
        &&& layout::has_all_commands(self.data@)
        &&& entry::entry_fits(self.data@)
    }

    /// Tests whether the buffer could contain a MachO object.
    pub fn test(data: &[u8]) -> (res: bool)
        ensures
            res == has_object_signature(data@),
    {
        match reader::peek(data) {
            Signature::Object => true,
            _ => false,
        }
    }

    /// Tries to parse a MachO from the given slice.
    ///
    /// The address of the entry point must have 64 bits, which
    /// [`entry_point_fits`](crate::entry::entry_point_fits) tells.
    pub fn parse(data: &'d [u8]) -> (res: Result<Self, MachError>)
        requires
            entry::entry_fits(data@),
        ensures
            is_parse_of(data@, res),
    {
        match reader::parse_object(data) {
            Ok(macho) => Ok(MachObject { macho, data }),
            Err(error) => Err(MachError::BadObject(error)),
        }
    }

    /// The container file format, which is always `FileFormat::MachO`.
    pub fn file_format(&self) -> (res: FileFormat)
        ensures
            res == FileFormat::MachO,
    {
        FileFormat::MachO
    }

    /// The identifier of the image, out of the first load command that holds one.
    fn find_uuid(&self) -> (res: Option<[u8; 16]>)
        ensures
            res is Some <==> layout::image_uuid(self@) is Some,
            res matches Some(uuid) ==> layout::image_uuid(self@) == Some(uuid@),
    {
        proof {
            use_type_invariant(self);
        }
        let count: usize = reader::command_count(&self.macho);
        let mut i: usize = 0;
        while i < count
            invariant
                i <= count,
                count == layout::command_count(self@),
                reader::is_object(self@),
                reader::object_bytes(self.macho) == self@,
                layout::first_index(layout::uuid_command(self@), 0, count as int)
                    == layout::first_index(
                    layout::uuid_command(self@),
                    i as int,
                    count as int,
                ),
            decreases count - i,
        {
            if let Some(uuid) = reader::command_uuid(&self.macho, i) {
                return Some(uuid);
            }
            i = i + 1;
        }
        None
    }

    /// The code identifier of this object.
    ///
    /// Mach objects use a UUID which is specified in the load commands that are part of the Mach
    /// header. This UUID is generated at compile / link time and is usually unique per compilation.
    pub fn code_id(&self) -> (res: Option<CodeId>)
        ensures
            res is Some <==> image::code_id(self@) is Some,
            res matches Some(id) ==> image::code_id(self@) == Some(id@),
    {
        match self.find_uuid() {
            Some(uuid) => Some(CodeId::from_binary(&uuid)),
            None => None,
        }
    }

    /// The debug information identifier of a MachO file.
    ///
    /// This uses the same UUID as `code_id`.
    pub fn debug_id(&self) -> (res: DebugId)
        ensures
            res.spec_uuid() == image::debug_uuid(self@),
            res.spec_appendix() == 0,
    {
        match self.find_uuid() {
            Some(uuid) => DebugId::from_uuid(uuid),
            None => DebugId::default(),
        }
    }

    /// The CPU architecture of this object, as specified in the Mach header.
    pub fn arch(&self) -> (res: Arch)
        ensures
            res == base::arch_of(layout::cpu_type(self@), layout::cpu_subtype(self@)),
    {
        proof {
            use_type_invariant(self);
        }
        let header = reader::object_header(&self.macho);
        Arch::from_cpu(header.cputype, header.cpusubtype)
    }

    /// The kind of this object, as specified in the Mach header.
    pub fn kind(&self) -> (res: ObjectKind)
        ensures
            res == base::kind_of(layout::file_type(self@)),
    {
        proof {
            use_type_invariant(self);
        }
        ObjectKind::from_file_type(reader::object_header(&self.macho).filetype)
    }

    /// The byte order in which this object stores numbers, as specified in the Mach header.
    pub fn endianity(&self) -> (res: Endian)
        ensures
            res == if layout::is_little_endian(self@) {
                Endian::Little
            } else {
                Endian::Big
            },
    {
        proof {
            use_type_invariant(self);
        }
        if reader::object_header(&self.macho).little_endian {
            Endian::Little
        } else {
            Endian::Big
        }
    }

    /// Tells whether the name of a segment is that of the segment with program text.
    fn is_text_segment(name: &Option<String>) -> (res: bool)
        ensures
            res == (name matches Some(n) && n@ == "__TEXT"@),
    {
        match name {
            Some(name) => text::same(name.as_str(), "__TEXT"),
            None => false,
        }
    }

    /// The address at which the image prefers to be loaded into memory.
    ///
    /// MachO files store all internal addresses as if it was loaded at that address. When the image
    /// is actually loaded, that spot might already be taken by other images and so it must be
    /// relocated to a new address. At runtime, a relocation table manages the arithmetics behind
    /// this.
    ///
    /// Addresses used in `symbols` or `debug_session` have already been rebased relative to that
    /// load address, so that the caller only has to deal with addresses relative to the actual
    /// start of the image.
    pub fn load_address(&self) -> (res: u64)
        ensures
            res == image::load_address(self@),
    {
        proof {
            use_type_invariant(self);
        }
        let count: usize = reader::segment_count(&self.macho);
        let mut i: usize = 0;
        while i < count
            invariant
                i <= count,
                count == layout::segments(self@).len(),
                reader::is_object(self@),
                reader::object_bytes(self.macho) == self@,
                layout::first_index(image::text_segment(self@), 0, count as int)
                    == layout::first_index(image::text_segment(self@), i as int, count as int),
            decreases count - i,
        {
            let segment = reader::segment_header(&self.macho, i);
            if Self::is_text_segment(&segment.name) {
                return segment.vmaddr;
            }
            i = i + 1;
        }
        0
    }

    /// Determines whether this object exposes a public symbol table.
    pub fn has_symbols(&self) -> (res: bool)
        ensures
            res == layout::symtab(self@) is Some,
    {
        proof {
            use_type_invariant(self);
        }
        reader::has_symbol_table(&self.macho)
    }

    /// The numbers of the sections with code.
    ///
    /// These are either "__text" or "__stubs", always located in the "__TEXT" segment. It looks
    /// like each of those sections only occurs once, but to be safe they are collected into a list.
    fn code_sections(&self) -> (res: SectionIndices)
        ensures
            res@ == image::code_sections(self@),
    {
        proof {
            use_type_invariant(self);
            layout::lemma_segments(self@, layout::command_count(self@));
        }
        let ghost all = layout::sections(self@);
        let mut sections = SectionIndices::new();
        let mut section_index: u64 = 0;
        let count: usize = reader::segment_count(&self.macho);
        let mut i: usize = 0;
        while i < count
            invariant
                i <= count,
                count == layout::segments(self@).len(),
                count <= u32::MAX / 8,
                all == layout::sections(self@),
                reader::is_object(self@),
                reader::object_bytes(self.macho) == self@,
                section_index == layout::sections_until(self@, i as int).len(),
                forall|m: int| 0 <= m < section_index ==> !image::is_broken(#[trigger] all[m]),
                forall|n: int| #[trigger]
                    sections@.contains(n) <==> n < section_index && image::is_code_section(all, n),
            decreases count - i,
        {
            let ghost start = section_index as int;
            let ghost declared = layout::segments(self@)[i as int];
            let ghost placed = layout::placed_sections(self@, declared);
            proof {
                layout::lemma_section_count(self@, i as int + 1);
                layout::lemma_sections_of_segment(self@, i as int, count as int);
            }
            let segment = reader::segment_header(&self.macho, i);
            if !Self::is_text_segment(&segment.name) {
                proof {
                    let end = start + declared.nsects;
                    assert forall|m: int| start <= m < end implies !image::is_text(
                        #[trigger] all[m],
                    ) by {
                        assert(placed[m - start] == all[m]);
                    }
                }
                section_index = section_index + segment.nsects as u64;
                i = i + 1;
                continue ;
            }
            let mut headers = reader::segment_sections(&self.macho, i);
            let ghost mut j: int = 0;
            loop
                invariant
                    0 <= j <= declared.nsects,
                    start + declared.nsects <= u64::MAX,
                    start + declared.nsects <= all.len(),
                    section_index == start + j,
                    declared.name == Some("__TEXT"@),
                    placed == layout::placed_sections(self@, declared),
                    forall|k: int|
                        0 <= k < declared.nsects ==> (#[trigger] placed[k]) == all[start + k],
                    reader::sections_left(headers) == layout::segment_sections(
                        self@,
                        declared,
                    ).skip(j),
                    all == layout::sections(self@),
                    forall|m: int| 0 <= m < section_index ==> !image::is_broken(#[trigger] all[m]),
                    forall|n: int| #[trigger]
                        sections@.contains(n) <==> n < section_index && image::is_code_section(
                            all,
                            n,
                        ),
                ensures
                    j == declared.nsects,
                decreases declared.nsects - j,
            {
                let item = match reader::next_section(&mut headers) {
                    Some(item) => item,
                    None => {
                        break ;
                    },
                };
                assert(placed[j] == all[start + j]);
                // Do not continue to iterate potentially broken section headers. This could lead to
                // invalid section indices.
                let section = match item {
                    Ok(section) => section,
                    Err(_) => {
                        return sections;
                    },
                };
                let is_code = match &section.name {
                    Some(name) => text::same(name.as_str(), "__text") || text::same(
                        name.as_str(),
                        "__stubs",
                    ),
                    None => false,
                };
                if is_code {
                    let ghost before = sections;
                    sections.push(section_index);
                    proof {
                        indices::lemma_push(before, sections, section_index);
                    }
                }
                section_index = section_index + 1;
                proof {
                    j = j + 1;
                }
            }
            i = i + 1;
        }
        sections
    }

    /// Returns an iterator over symbols in the public symbol table.
    pub fn symbols(&self) -> (res: MachOSymbolIterator<'d>)
        ensures
            res@ == image::symbols(self@),
    {
        proof {
            use_type_invariant(self);
        }
        let sections = self.code_sections();
        MachOSymbolIterator::new(
            reader::symbol_table(&self.macho),
            sections,
            self.load_address(),
        )
    }

    /// Returns an ordered map of symbols in the symbol table.
    pub fn symbol_map(&self) -> (res: SymbolMap<'d>)
        ensures
            symbol_map::is_map_of(image::symbols(self@), res@),
    {
        let mut iter = self.symbols();
        let mut symbols: Vec<Symbol<'d>> = Vec::new();
        loop
            invariant
                symbol_map::models(symbols@) + iter@ == image::symbols(self@),
            ensures
                symbol_map::models(symbols@) == image::symbols(self@),
            decreases iter@.len(),
        {
            match iter.next() {
                Some(symbol) => {
                    symbols.push(symbol);
                },
                None => {
                    break ;
                },
            }
        }
        SymbolMap::from_symbols(symbols)
    }

    /// Constructs a debugging session.
    ///
    /// A debugging session loads certain information from the object file and creates caches for
    /// efficient access to various records in the debug information. Since this can be quite a
    /// costly process, try to reuse the debugging session as long as possible.
    ///
    /// MachO files generally use DWARF debugging information, which is also used by ELF containers
    /// on Linux. The session itself is up to `parse`: it is given this object, whose sections
    /// [`raw_section`](Self::raw_section) gives, the symbols and the load address, and what it
    /// returns, a session or an error, is the result.
    ///
    /// Whether the object contains debugging information can be checked via
    /// [`has_debug_info`](Self::has_debug_info). `parse` is called in either case.
    pub fn debug_session<'a, S, E, F>(&'a self, parse: F) -> (res: Result<S, E>) where
        F: FnOnce(&'a MachObject<'d>, SymbolMap<'d>, u64) -> Result<S, E>,

        requires
            forall|symbols: SymbolMap<'d>, load_address: u64|
                is_session_start(self@, symbols@, load_address) ==> #[trigger] call_requires(
                    parse,
                    (self, symbols, load_address),
                ),
        ensures
            exists|symbols: SymbolMap<'d>, load_address: u64|
                is_session_start(self@, symbols@, load_address) && #[trigger] call_ensures(
                    parse,
                    (self, symbols, load_address),
                    res,
                ),
    {
        let symbols = self.symbol_map();
        parse(self, symbols, self.load_address())
    }

    /// Checks whether this mach object contains hidden symbols.
    ///
    /// This is an indication that BCSymbolMaps are needed to symbolicate crash reports correctly.
    pub fn requires_symbolmap(&self) -> (res: bool)
        ensures
            res == image::has_hidden_symbols(self@),
    {
        let ghost all = image::symbols(self@);
        let ghost mut n: int = 0;
        let mut iter = self.symbols();
        loop
            invariant
                0 <= n <= all.len(),
                all == image::symbols(self@),
                iter@ == all.skip(n),
                forall|i: int| 0 <= i < n ==> !image::is_hidden(#[trigger] all[i]),
            decreases iter@.len(),
        {
            let symbol = match iter.next() {
                Some(symbol) => symbol,
                None => return false,
            };
            if let Some(name) = symbol.name() {
                if text::has_prefix(name, "__?hidden#") {
                    return true;
                }
            }
            proof {
                n = n + 1;
            }
        }
    }

    /// Compares a section name with the given one, which comes without the leading underscores.
    fn compare_name(name: &Option<String>, wanted: &str) -> (res: NameMatch)
        ensures
            res is Same <==> (name matches Some(n) && image::name_matches(Some(n@), wanted@)),
            res is Unsplittable ==> (name matches Some(n) && !image::name_splits(Some(n@))),
            res is Other ==> (name matches Some(n) ==> image::name_splits(Some(n@))),
    {
        let name = match name {
            Some(name) => name.as_str(),
            None => return NameMatch::Other,
        };
        let bytes = name.as_bytes();
        let part = wanted.as_bytes();
        if bytes.len() < 2 {
            return NameMatch::Other;
        }
        if bytes.len() - 2 == part.len() && text::has_bytes_at(bytes, 2, part) {
            assert(bytes@.skip(2) =~= part@);
            return NameMatch::Same;
        }
        if name.is_char_boundary(2) {
            NameMatch::Other
        } else {
            NameMatch::Unsplittable
        }
    }

    /// Looks for the first section with the given name.
    fn look_up(&self, section_name: &str) -> (res: Lookup<'d>)
        ensures
            res is Unsplittable <==> !image::can_find_section(self@, section_name@),
            res is Missing ==> image::find_section(self@, section_name@) is None,
            res matches Lookup::Found(section) ==> image::find_section(
                self@,
                section_name@,
            ) matches Some(i) && reader::reads_section(
                Ok(section),
                layout::sections(self@)[i].section,
            ),
    {
        proof {
            use_type_invariant(self);
        }
        let ghost all = layout::sections(self@);
        let count: usize = reader::segment_count(&self.macho);
        let mut i: usize = 0;
        while i < count
            invariant
                i <= count,
                count == layout::segments(self@).len(),
                all == layout::sections(self@),
                reader::is_object(self@),
                reader::object_bytes(self.macho) == self@,
                image::passes(
                    self@,
                    section_name@,
                    layout::sections_until(self@, i as int).len() as int,
                ),
            decreases count - i,
        {
            let ghost declared = layout::segments(self@)[i as int];
            let ghost placed = layout::placed_sections(self@, declared);
            let ghost start = layout::sections_until(self@, i as int).len() as int;
            proof {
                layout::lemma_sections_of_segment(self@, i as int, count as int);
            }
            let mut headers = reader::segment_sections(&self.macho, i);
            let ghost mut j: int = 0;
            loop
                invariant
                    0 <= j <= declared.nsects,
                    0 <= start,
                    start + declared.nsects <= all.len(),
                    placed == layout::placed_sections(self@, declared),
                    forall|k: int|
                        0 <= k < declared.nsects ==> (#[trigger] placed[k]) == all[start + k],
                    reader::sections_left(headers) == layout::segment_sections(
                        self@,
                        declared,
                    ).skip(j),
                    all == layout::sections(self@),
                    image::passes(self@, section_name@, start + j),
                ensures
                    j == declared.nsects,
                decreases declared.nsects - j,
            {
                let item = match reader::next_section(&mut headers) {
                    Some(item) => item,
                    None => {
                        break ;
                    },
                };
                assert(placed[j] == all[start + j]);
                if let Ok(section) = item {
                    match Self::compare_name(&section.name, section_name) {
                        NameMatch::Same => {
                            proof {
                                image::lemma_found(self@, section_name@, start + j);
                            }
                            return Lookup::Found(section);
                        },
                        NameMatch::Unsplittable => {
                            proof {
                                image::lemma_unsplittable(self@, section_name@, start + j);
                            }
                            return Lookup::Unsplittable;
                        },
                        NameMatch::Other => {},
                    }
                }
                proof {
                    j = j + 1;
                }
            }
            i = i + 1;
        }
        proof {
            image::lemma_missing(self@, section_name@);
        }
        Lookup::Missing
    }

    /// Tells whether [`raw_section`](Self::raw_section) and [`has_section`](Self::has_section) can
    /// be asked for the given section: the second byte of each section name that they come upon has
    /// to be the end of a character.
    pub fn can_find_section(&self, section_name: &str) -> (res: bool)
        ensures
            res == image::can_find_section(self@, section_name@),
    {
        match self.look_up(section_name) {
            Lookup::Unsplittable => false,
            _ => true,
        }
    }

    /// Returns the section with the given name, which is given without the leading underscores.
    pub fn raw_section(&self, section_name: &str) -> (res: Option<DwarfSection<'d>>)
        requires
            image::can_find_section(self@, section_name@),
        ensures
            res is Some <==> image::raw_section(self@, section_name@) is Some,
            res matches Some(section) ==> {
                let found = image::raw_section(self@, section_name@)->0;
                &&& section.data@ == found.data
                &&& section.address == found.addr
                &&& section.offset == found.offset
                &&& section.align == found.align
            },
    {
        match self.look_up(section_name) {
            Lookup::Found(header) => {
                // In some cases, dsymutil leaves sections headers but removes their data from the
                // file. While the addr and size parameters are still set, the offset is 0 in that
                // case. We skip them just like the section was missing to avoid loading invalid
                // data.
                if header.offset == 0 {
                    return None;
                }
                Some(
                    DwarfSection {
                        data: header.data,
                        address: header.addr,
                        offset: header.offset as u64,
                        align: header.align as u64,
                    },
                )
            },
            _ => None,
        }
    }

    /// Determines whether this object holds the contents of the section with the given name.
    pub fn has_section(&self, section_name: &str) -> (res: bool)
        requires
            image::can_find_section(self@, section_name@),
        ensures
            res == image::raw_section(self@, section_name@) is Some,
    {
        self.raw_section(section_name).is_some()
    }

    /// Determines whether this object contains debug information.
    pub fn has_debug_info(&self) -> (res: bool)
        requires
            image::can_find_section(self@, "debug_info"@),
        ensures
            res == image::raw_section(self@, "debug_info"@) is Some,
    {
        self.has_section("debug_info")
    }

    /// Determines whether this object contains stack unwinding information.
    pub fn has_unwind_info(&self) -> (res: bool)
        requires
            image::can_find_section(self@, "eh_frame"@),
            image::raw_section(self@, "eh_frame"@) is None ==> image::can_find_section(
                self@,
                "debug_frame"@,
            ),
        ensures
            res == (image::raw_section(self@, "eh_frame"@) is Some || image::raw_section(
                self@,
                "debug_frame"@,
            ) is Some),
    {
        self.has_section("eh_frame") || self.has_section("debug_frame")
    }

    /// Determines whether this object contains embedded source.
    pub fn has_sources(&self) -> (res: bool)
        ensures
            !res,
    {
        false
    }

    /// Returns the raw data of the file, from which the object can be parsed again.
    pub fn data(&self) -> (res: &'d [u8])
        ensures
            res@ == self@,
            reader::is_object(res@),
            layout::has_all_commands(res@),
            entry::entry_fits(res@),
    {
        proof {
            use_type_invariant(self);
        }
        self.data
    }
}

} // verus!
