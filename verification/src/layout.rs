//! The Mach-O file layout, stated over the bytes of a file.
//!
//! A Mach-O file starts with a header, which is followed by load commands. Some of the commands
//! declare segments, which in turn list sections, and one of them locates the symbol table. All
//! positions are offsets from the start of the file, and all numbers are stored in the byte order
//! that the magic number of the header announces.
use vstd::prelude::*;

verus! {

/// Magic number of a big-endian 32-bit file.
pub const MH_MAGIC: u32 = 0xfeed_face;

/// Magic number of a little-endian 32-bit file.
pub const MH_CIGAM: u32 = 0xcefa_edfe;

/// Magic number of a big-endian 64-bit file.
pub const MH_MAGIC_64: u32 = 0xfeed_facf;

/// Magic number of a little-endian 64-bit file.
pub const MH_CIGAM_64: u32 = 0xcffa_edfe;

/// Magic number of a fat container.
pub const FAT_MAGIC: u32 = 0xcafe_babe;

/// Load command that declares a 32-bit segment.
pub const LC_SEGMENT: u32 = 0x1;

/// Load command that locates the symbol table.
pub const LC_SYMTAB: u32 = 0x2;

/// Load command that declares a 64-bit segment.
pub const LC_SEGMENT_64: u32 = 0x19;

/// Load command that holds the identifier of the image.
pub const LC_UUID: u32 = 0x1b;

/// Load command that locates the entry point of an executable.
pub const LC_MAIN: u32 = 0x8000_0028;

/// The big-endian 32-bit number at `off`.
pub open spec fn be32_at(b: Seq<u8>, off: int) -> int {
    b[off] * 0x100_0000 + b[off + 1] * 0x1_0000 + b[off + 2] * 0x100 + b[off + 3]
}

/// The little-endian 32-bit number at `off`.
pub open spec fn le32_at(b: Seq<u8>, off: int) -> int {
    b[off] + b[off + 1] * 0x100 + b[off + 2] * 0x1_0000 + b[off + 3] * 0x100_0000
}

/// The magic number.
pub open spec fn magic(b: Seq<u8>) -> int {
    be32_at(b, 0)
}

/// Whether the file starts with the magic number of a Mach-O object.
pub open spec fn has_object_magic(b: Seq<u8>) -> bool {
    &&& b.len() >= 4
    &&& magic(b) == MH_MAGIC || magic(b) == MH_CIGAM || magic(b) == MH_MAGIC_64 || magic(b)
        == MH_CIGAM_64
}

/// Whether the file starts with the magic number of a fat container.
pub open spec fn has_fat_magic(b: Seq<u8>) -> bool {
    b.len() >= 4 && magic(b) == FAT_MAGIC
}

/// Whether the numbers of the file are stored with the least significant byte first.
pub open spec fn is_little_endian(b: Seq<u8>) -> bool {
    magic(b) == MH_CIGAM || magic(b) == MH_CIGAM_64
}

/// Whether the header announces the 64-bit variant of the format.
pub open spec fn is_64(b: Seq<u8>) -> bool {
    magic(b) == MH_MAGIC_64 || magic(b) == MH_CIGAM_64
}

/// The 32-bit number at `off`, in the byte order of the file.
pub open spec fn u32_at(b: Seq<u8>, off: int) -> int {
    if is_little_endian(b) {
        le32_at(b, off)
    } else {
        be32_at(b, off)
    }
}

/// The 64-bit number at `off`, in the byte order of the file.
pub open spec fn u64_at(b: Seq<u8>, off: int) -> int {
    if is_little_endian(b) {
        le32_at(b, off) + le32_at(b, off + 4) * 0x1_0000_0000
    } else {
        be32_at(b, off) * 0x1_0000_0000 + be32_at(b, off + 4)
    }
}

/// The least index in `from..to` with the property `p`, if there is one.
pub open spec fn first_index(p: spec_fn(int) -> bool, from: int, to: int) -> Option<int>
    decreases to - from,
{
    if from >= to {
        None
    } else if p(from) {
        Some(from)
    } else {
        first_index(p, from + 1, to)
    }
}

/// What `first_index` finds.
pub proof fn lemma_first_index(p: spec_fn(int) -> bool, from: int, to: int)
    ensures
        match first_index(p, from, to) {
            Some(i) => from <= i < to && p(i) && forall|k: int| from <= k < i ==> !#[trigger] p(k),
            None => forall|k: int| from <= k < to ==> !#[trigger] p(k),
        },
    decreases to - from,
{
    if from < to && !p(from) {
        lemma_first_index(p, from + 1, to);
    }
}

/// The bytes of `s` before the first zero byte, or all of `s` if there is none.
pub open spec fn cstring(s: Seq<u8>) -> Seq<u8>
    decreases s.len(),
{
    if s.len() == 0 || s[0] == 0 {
        Seq::empty()
    } else {
        seq![s[0]] + cstring(s.drop_first())
    }
}

/// The zero-terminated text at the start of `s`, if it is valid UTF-8.
pub open spec fn text(s: Seq<u8>) -> Option<Seq<char>> {
    if vstd::utf8::valid_utf8(cstring(s)) {
        Some(vstd::utf8::decode_utf8(cstring(s)))
    } else {
        None
    }
}

/// Whether the file starts with a magic number and has room for a header: as many bytes as the
/// header of the 64-bit variant has, though that of the 32-bit variant takes four less.
pub open spec fn has_header(b: Seq<u8>) -> bool {
    has_object_magic(b) && b.len() >= 32
}

/// Whether the load commands can be as many, and take as much space, as the header claims.
pub open spec fn has_room_for_commands(b: Seq<u8>) -> bool {
    8 * command_count(b) <= commands_size(b) <= b.len()
}

/// The length of the header.
pub open spec fn header_size(b: Seq<u8>) -> int {
    if is_64(b) {
        32
    } else {
        28
    }
}

/// The CPU type of the header.
pub open spec fn cpu_type(b: Seq<u8>) -> int {
    u32_at(b, 4)
}

/// The CPU subtype of the header, without the capability bits in its topmost byte.
pub open spec fn cpu_subtype(b: Seq<u8>) -> int {
    u32_at(b, 8) % 0x100_0000
}

/// The file type of the header.
pub open spec fn file_type(b: Seq<u8>) -> int {
    u32_at(b, 12)
}

/// The number of load commands.
pub open spec fn command_count(b: Seq<u8>) -> int {
    u32_at(b, 16)
}

/// The number of bytes that the header claims for all load commands.
pub open spec fn commands_size(b: Seq<u8>) -> int {
    u32_at(b, 20)
}

/// Where the `i`-th load command starts: each command states how far away the next one is.
pub open spec fn command_offset(b: Seq<u8>, i: int) -> int
    decreases i,
{
    if i <= 0 {
        header_size(b)
    } else {
        command_offset(b, i - 1) + u32_at(b, command_offset(b, i - 1) + 4)
    }
}

/// The kind of the `i`-th load command.
pub open spec fn command_kind(b: Seq<u8>, i: int) -> int {
    u32_at(b, command_offset(b, i))
}

/// Whether the file holds `size` bytes at `offset`, where no bytes are held anywhere.
pub open spec fn holds(b: Seq<u8>, offset: int, size: int) -> bool {
    size == 0 || offset + size <= b.len()
}

/// Whether the file holds the load command at `off`: the part that all commands share, as many
/// bytes as the command claims and, for the kinds of commands that matter here, their fields and
/// what they refer to. The string table must not lie before the symbol table.
pub open spec fn has_command_at(b: Seq<u8>, off: int) -> bool {
    &&& off + 8 <= b.len()
    &&& off + u32_at(b, off + 4) <= b.len()
    &&& u32_at(b, off) == LC_SEGMENT ==> off + 56 <= b.len() && holds(
        b,
        u32_at(b, off + 32),
        u32_at(b, off + 36),
    )
    &&& u32_at(b, off) == LC_SEGMENT_64 ==> off + 72 <= b.len() && holds(
        b,
        u64_at(b, off + 40),
        u64_at(b, off + 48),
    )
    &&& u32_at(b, off) == LC_SYMTAB ==> off + 24 <= b.len() && u32_at(b, off + 8) <= b.len()
        && u32_at(b, off + 8) <= u32_at(b, off + 16)
    &&& u32_at(b, off) == LC_UUID ==> off + 24 <= b.len()
    &&& u32_at(b, off) == LC_MAIN ==> off + 24 <= b.len()
}

/// Whether the file holds the `i`-th load command.
pub open spec fn has_command(b: Seq<u8>, i: int) -> bool {
    has_command_at(b, command_offset(b, i))
}

/// Whether the file holds a header and all of its load commands.
pub open spec fn has_all_commands(b: Seq<u8>) -> bool {
    &&& has_header(b)
    &&& has_room_for_commands(b)
    &&& forall|i: int| 0 <= i < command_count(b) ==> #[trigger] has_command(b, i)
}

/// Whether the `i`-th load command declares a segment, locates the symbol table or the entry point,
/// or holds the identifier of the image.
pub open spec fn is_plain_command(b: Seq<u8>, i: int) -> bool {
    is_segment_command(b, i) || command_kind(b, i) == LC_SYMTAB || command_kind(b, i) == LC_UUID
        || command_kind(b, i) == LC_MAIN
}

/// Whether the file holds a header and all of its load commands, which are of the plain kinds.
pub open spec fn is_plain_file(b: Seq<u8>) -> bool {
    &&& has_all_commands(b)
    &&& forall|i: int| 0 <= i < command_count(b) ==> #[trigger] is_plain_command(b, i)
}

/// The identifier in the `i`-th load command, if that is an identifier command.
pub open spec fn command_uuid(b: Seq<u8>, i: int) -> Option<Seq<u8>> {
    if command_kind(b, i) == LC_UUID {
        Some(b.subrange(command_offset(b, i) + 8, command_offset(b, i) + 24))
    } else {
        None
    }
}

/// The property of being an identifier command.
pub open spec fn uuid_command(b: Seq<u8>) -> spec_fn(int) -> bool {
    |i: int| command_uuid(b, i) is Some
}

/// The identifier of the image: that of the first identifier command.
pub open spec fn image_uuid(b: Seq<u8>) -> Option<Seq<u8>> {
    match first_index(uuid_command(b), 0, command_count(b)) {
        Some(i) => command_uuid(b, i),
        None => None,
    }
}

/// A segment as its load command declares it.
pub struct SegmentLayout {
    /// Where the load command starts.
    pub command: int,
    /// The name, if it is valid UTF-8.
    pub name: Option<Seq<char>>,
    /// The address of the segment in the address space of the image.
    pub vmaddr: int,
    /// The number of sections.
    pub nsects: int,
}

/// Whether the `i`-th load command declares a segment.
pub open spec fn is_segment_command(b: Seq<u8>, i: int) -> bool {
    command_kind(b, i) == LC_SEGMENT || command_kind(b, i) == LC_SEGMENT_64
}

/// The segment that the `i`-th load command declares.
pub open spec fn command_segment(b: Seq<u8>, i: int) -> SegmentLayout {
    let off = command_offset(b, i);
    let wide = command_kind(b, i) == LC_SEGMENT_64;
    SegmentLayout {
        command: off,
        name: text(b.subrange(off + 8, off + 24)),
        vmaddr: if wide {
            u64_at(b, off + 24)
        } else {
            u32_at(b, off + 24)
        },
        nsects: if wide {
            u32_at(b, off + 64)
        } else {
            u32_at(b, off + 48)
        },
    }
}

/// The segments that the first `n` load commands declare, in order.
pub open spec fn segments_until(b: Seq<u8>, n: int) -> Seq<SegmentLayout>
    decreases n,
{
    if n <= 0 {
        Seq::empty()
    } else if is_segment_command(b, n - 1) {
        segments_until(b, n - 1).push(command_segment(b, n - 1))
    } else {
        segments_until(b, n - 1)
    }
}

/// All segments, in the order of their load commands.
pub open spec fn segments(b: Seq<u8>) -> Seq<SegmentLayout> {
    segments_until(b, command_count(b))
}

/// A section as its header describes it.
pub struct SectionLayout {
    /// The name, if it is valid UTF-8.
    pub name: Option<Seq<char>>,
    /// The address of the section in the address space of the image.
    pub addr: int,
    /// Where the contents start in the file.
    pub offset: int,
    /// The alignment of the section.
    pub align: int,
    /// The contents, empty if the file does not hold them.
    pub data: Seq<u8>,
}

/// The length of a segment command, that is where the first section header follows it.
pub open spec fn segment_command_size(b: Seq<u8>) -> int {
    if is_64(b) {
        72
    } else {
        56
    }
}

/// The length of a section header.
pub open spec fn section_header_size(b: Seq<u8>) -> int {
    if is_64(b) {
        80
    } else {
        68
    }
}

/// Whether sections with these flags take up memory but no space in the file.
pub open spec fn is_zero_fill(flags: int) -> bool {
    flags % 0x100 == 0x1 || flags % 0x100 == 0xc || flags % 0x100 == 0x12
}

/// The `size` bytes at `offset`, or none if the file ends before.
pub open spec fn contents_at(b: Seq<u8>, offset: int, size: int) -> Seq<u8> {
    if offset + size <= b.len() {
        b.subrange(offset, offset + size)
    } else {
        Seq::empty()
    }
}

/// The section whose header is at `off`, if the file holds the entire header.
pub open spec fn section_at(b: Seq<u8>, off: int) -> Option<SectionLayout> {
    if off + section_header_size(b) > b.len() {
        None
    } else if is_64(b) {
        Some(
            SectionLayout {
                name: text(b.subrange(off, off + 16)),
                addr: u64_at(b, off + 32),
                offset: u32_at(b, off + 48),
                align: u32_at(b, off + 52),
                data: if is_zero_fill(u32_at(b, off + 64)) {
                    Seq::empty()
                } else {
                    contents_at(b, u32_at(b, off + 48), u64_at(b, off + 40))
                },
            },
        )
    } else {
        Some(
            SectionLayout {
                name: text(b.subrange(off, off + 16)),
                addr: u32_at(b, off + 32),
                offset: u32_at(b, off + 40),
                align: u32_at(b, off + 44),
                data: if is_zero_fill(u32_at(b, off + 56)) {
                    Seq::empty()
                } else {
                    contents_at(b, u32_at(b, off + 40), u32_at(b, off + 36))
                },
            },
        )
    }
}

/// The sections of a segment. A section is missing if the file ends before its header does.
pub open spec fn segment_sections(b: Seq<u8>, segment: SegmentLayout) -> Seq<
    Option<SectionLayout>,
> {
    Seq::new(
        segment.nsects as nat,
        |j: int|
            section_at(
                b,
                segment.command + segment_command_size(b) + j * section_header_size(b),
            ),
    )
}

/// A section together with the name of the segment that lists it.
pub struct PlacedSection {
    /// The name of the segment, if it is valid UTF-8.
    pub segment: Option<Seq<char>>,
    /// The section, unless it is missing.
    pub section: Option<SectionLayout>,
}

/// The sections of a segment with its name.
pub open spec fn placed_sections(b: Seq<u8>, segment: SegmentLayout) -> Seq<PlacedSection> {
    Seq::new(
        segment.nsects as nat,
        |j: int|
            PlacedSection { segment: segment.name, section: segment_sections(b, segment)[j] },
    )
}

/// The sections of the first `n` segments, in order.
pub open spec fn sections_until(b: Seq<u8>, n: int) -> Seq<PlacedSection>
    decreases n,
{
    if n <= 0 {
        Seq::empty()
    } else {
        sections_until(b, n - 1) + placed_sections(b, segments(b)[n - 1])
    }
}

/// All sections, in the order of their segments. The place of a section here is its number, by
/// which symbols refer to it.
pub open spec fn sections(b: Seq<u8>) -> Seq<PlacedSection> {
    sections_until(b, segments(b).len() as int)
}

/// There are at most as many segments as load commands, and each lists less than `2^32` sections.
pub proof fn lemma_segments(b: Seq<u8>, n: int)
    ensures
        segments_until(b, n).len() <= if n <= 0 {
            0
        } else {
            n
        },
        forall|i: int|
            0 <= i < segments_until(b, n).len() ==> 0 <= (#[trigger] segments_until(
                b,
                n,
            )[i]).nsects <= u32::MAX,
    decreases n,
{
    if n > 0 {
        lemma_segments(b, n - 1);
    }
}

/// The number of sections in the first `n` segments is bounded.
pub proof fn lemma_section_count(b: Seq<u8>, n: int)
    requires
        0 <= n <= segments(b).len(),
    ensures
        sections_until(b, n).len() <= n * u32::MAX,
    decreases n,
{
    lemma_segments(b, command_count(b));
    if n > 0 {
        lemma_section_count(b, n - 1);
    }
}

/// The sections of a segment among all sections.
pub proof fn lemma_sections_of_segment(b: Seq<u8>, i: int, n: int)
    requires
        0 <= i < n <= segments(b).len(),
    ensures
        sections_until(b, i + 1).len() <= sections_until(b, n).len(),
        sections_until(b, i + 1).len() == sections_until(b, i).len() + segments(b)[i].nsects,
        forall|j: int|
            0 <= j < segments(b)[i].nsects ==> (#[trigger] placed_sections(b, segments(b)[i])[j])
                == sections_until(b, n)[sections_until(b, i).len() + j],
    decreases n,
{
    lemma_segments(b, command_count(b));
    if i < n - 1 {
        lemma_sections_of_segment(b, i, n - 1);
    }
}

/// The command that locates the symbol table: the last of its kind among the first `n` commands.
pub open spec fn symtab_until(b: Seq<u8>, n: int) -> Option<int>
    decreases n,
{
    if n <= 0 {
        None
    } else if command_kind(b, n - 1) == LC_SYMTAB {
        Some(command_offset(b, n - 1))
    } else {
        symtab_until(b, n - 1)
    }
}

/// Where the command that locates the symbol table starts, if there is one.
pub open spec fn symtab(b: Seq<u8>) -> Option<int> {
    symtab_until(b, command_count(b))
}

/// An entry of the symbol table.
pub struct SymbolLayout {
    /// The name.
    pub name: Seq<char>,
    /// The type bits.
    pub n_type: u8,
    /// The number of the section, counted from one, or zero for none.
    pub n_sect: int,
    /// The value, which is an address if there is a section.
    pub n_value: int,
}

/// The length of a symbol table entry.
pub open spec fn symbol_size(b: Seq<u8>) -> int {
    if is_64(b) {
        16
    } else {
        12
    }
}

/// The symbol table entry at `off` with its name out of the string table at `stroff`. There is
/// none if the file ends before the entry or its name, or if the name is no valid UTF-8.
pub open spec fn symbol_at(b: Seq<u8>, off: int, stroff: int) -> Option<SymbolLayout> {
    let name_off = stroff + u32_at(b, off);
    if off + symbol_size(b) > b.len() || name_off > b.len() {
        None
    } else {
        match text(b.skip(name_off)) {
            Some(name) => Some(
                SymbolLayout {
                    name,
                    n_type: b[off + 4],
                    n_sect: b[off + 5] as int,
                    n_value: if is_64(b) {
                        u64_at(b, off + 8)
                    } else {
                        u32_at(b, off + 8)
                    },
                },
            ),
            None => None,
        }
    }
}

/// The symbol table, with a gap for each entry that cannot be read.
pub open spec fn symbol_entries(b: Seq<u8>) -> Seq<Option<SymbolLayout>> {
    match symtab(b) {
        Some(cmd) => Seq::new(
            u32_at(b, cmd + 12) as nat,
            |i: int| symbol_at(b, u32_at(b, cmd + 8) + i * symbol_size(b), u32_at(b, cmd + 16)),
        ),
        None => Seq::empty(),
    }
}

/// The number of objects that a fat container announces. The numbers of a fat container are always
/// stored with the most significant byte first.
pub open spec fn fat_count(b: Seq<u8>) -> int {
    be32_at(b, 4)
}

/// The place of an object in a fat container.
pub struct ArchLayout {
    /// Where the object starts.
    pub offset: int,
    /// The length of the object.
    pub size: int,
}

/// The place of the `i`-th object of a fat container. There is none if the container ends before
/// the record that gives it.
pub open spec fn fat_arch_at(b: Seq<u8>, i: int) -> Option<ArchLayout> {
    if 8 + 20 * i + 20 > b.len() {
        None
    } else {
        Some(
            ArchLayout {
                offset: be32_at(b, 8 + 20 * i + 8),
                size: be32_at(b, 8 + 20 * i + 12),
            },
        )
    }
}

} // verus!
