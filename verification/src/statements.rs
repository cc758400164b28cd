//! What each operation gives, stated over the bytes, the load commands, the sections and the symbol
//! table entries of a file.
//!
//! The conditions are written out in each statement. Numbers are those of the format.
use crate::archive;
use crate::base;
use crate::base::{Arch, ObjectKind};
use crate::entry;
use crate::fat;
use crate::ident;
use crate::image;
use crate::layout;
use crate::object;
use crate::object::{MachError, MachObject};
use crate::reader;
use crate::symbol_map;
use crate::symbols::Symbol;
use crate::text;
use vstd::prelude::*;

verus! {

// Tests by the first bytes.
/// A file passes the test for objects exactly if it has sixteen bytes or more and starts with one
/// of the four magic numbers.
pub proof fn law_object_test_goes_by_first_bytes(b: Seq<u8>)
    ensures
        object::has_object_signature(b) <==> b.len() >= 16 && {
            ||| b[0] == 0xfe && b[1] == 0xed && b[2] == 0xfa && b[3] == 0xce
            ||| b[0] == 0xce && b[1] == 0xfa && b[2] == 0xed && b[3] == 0xfe
            ||| b[0] == 0xfe && b[1] == 0xed && b[2] == 0xfa && b[3] == 0xcf
            ||| b[0] == 0xcf && b[1] == 0xfa && b[2] == 0xed && b[3] == 0xfe
        },
{
}

/// A file passes the test for fat containers, and its archive is multi, exactly if it has sixteen
/// bytes or more and starts with CA FE BA BE.
pub proof fn law_container_test_goes_by_first_bytes(b: Seq<u8>)
    ensures
        fat::has_container_signature(b) <==> b.len() >= 16 && b[0] == 0xca && b[1] == 0xfe && b[2]
            == 0xba && b[3] == 0xbe,
{
}

/// A file passes the test for archives exactly if it has sixteen bytes or more and starts with a
/// magic number of objects, or with that of fat containers and a number of objects below 45.
pub proof fn law_archive_test_goes_by_first_bytes(b: Seq<u8>)
    ensures
        archive::has_archive_signature(b) <==> b.len() >= 16 && {
            ||| b[0] == 0xfe && b[1] == 0xed && b[2] == 0xfa && b[3] == 0xce
            ||| b[0] == 0xce && b[1] == 0xfa && b[2] == 0xed && b[3] == 0xfe
            ||| b[0] == 0xfe && b[1] == 0xed && b[2] == 0xfa && b[3] == 0xcf
            ||| b[0] == 0xcf && b[1] == 0xfa && b[2] == 0xed && b[3] == 0xfe
            ||| b[0] == 0xca && b[1] == 0xfe && b[2] == 0xba && b[3] == 0xbe && b[4] == 0 && b[5]
                == 0 && b[6] == 0 && b[7] < 45
        },
{
}

// Containers and archives.
/// The objects of a fat container are the parts of the file that its records give, cut off at the
/// end of the file. There are as many as the second number of the header says.
pub proof fn law_container_objects_are_at_their_records(b: Seq<u8>, i: int)
    requires
        b.len() >= 8,
        0 <= i < b[4] * 0x100_0000 + b[5] * 0x1_0000 + b[6] * 0x100 + b[7],
    ensures
        fat::fat_slots(b).len() == b[4] * 0x100_0000 + b[5] * 0x1_0000 + b[6] * 0x100 + b[7],
        b.len() < 28 + 20 * i ==> fat::fat_slots(b)[i] == fat::ObjectSlot::Missing(
            reader::record_error(b, i),
        ),
        b.len() >= 28 + 20 * i ==> {
            let r = 8 + 20 * i;
            let start = b[r + 8] * 0x100_0000 + b[r + 9] * 0x1_0000 + b[r + 10] * 0x100 + b[r + 11];
            let size = b[r + 12] * 0x100_0000 + b[r + 13] * 0x1_0000 + b[r + 14] * 0x100 + b[r
                + 15];
            let end = start + size;
            &&& end > 0xffff_ffff ==> fat::fat_slots(b)[i] == fat::ObjectSlot::OutOfRange
            &&& end <= 0xffff_ffff && end <= b.len() ==> fat::fat_slots(b)[i]
                == fat::ObjectSlot::Bytes(b.subrange(start, end))
            &&& end <= 0xffff_ffff && start <= b.len() < end ==> fat::fat_slots(b)[i]
                == fat::ObjectSlot::Bytes(b.skip(start))
            &&& end <= 0xffff_ffff && b.len() < start ==> fat::fat_slots(b)[i]
                == fat::ObjectSlot::Bytes(Seq::empty())
        },
{
    let r = 8 + 20 * i;
    let start = layout::be32_at(b, r + 8);
    let len = b.len() as int;
    if len >= r + 20 {
        if start <= len {
            assert(b.skip(start) =~= b.subrange(start, len));
        }
        assert(b.subrange(len, len) =~= Seq::<u8>::empty());
    }
}

/// A container that announces no objects has none.
pub proof fn law_empty_containers_have_no_objects(b: Seq<u8>)
    requires
        b.len() >= 8,
        b[4] == 0 && b[5] == 0 && b[6] == 0 && b[7] == 0,
    ensures
        fat::fat_slots(b).len() == 0,
{
}

/// A file of sixteen bytes or more that starts with CA FE BA BE is an archive of several objects,
/// however long it is: as many as its second number says, at the places that its records give.
pub proof fn law_archive_of_container_has_its_objects(b: Seq<u8>, i: int)
    requires
        b.len() >= 16,
        b[0] == 0xca && b[1] == 0xfe && b[2] == 0xba && b[3] == 0xbe,
    ensures
        fat::has_container_signature(b),
        archive::archive_slots(b).len() == b[4] * 0x100_0000 + b[5] * 0x1_0000 + b[6] * 0x100
            + b[7],
        0 <= i < archive::archive_slots(b).len() && b.len() < 28 + 20 * i
            ==> archive::archive_slots(b)[i] == fat::ObjectSlot::Missing(
            reader::record_error(b, i),
        ),
        0 <= i < archive::archive_slots(b).len() && b.len() >= 28 + 20 * i ==> {
            let r = 8 + 20 * i;
            let start = b[r + 8] * 0x100_0000 + b[r + 9] * 0x1_0000 + b[r + 10] * 0x100 + b[r + 11];
            let size = b[r + 12] * 0x100_0000 + b[r + 13] * 0x1_0000 + b[r + 14] * 0x100 + b[r
                + 15];
            let end = start + size;
            &&& end > 0xffff_ffff ==> archive::archive_slots(b)[i] == fat::ObjectSlot::OutOfRange
            &&& end <= 0xffff_ffff && end <= b.len() ==> archive::archive_slots(b)[i]
                == fat::ObjectSlot::Bytes(b.subrange(start, end))
            &&& end <= 0xffff_ffff && start <= b.len() < end ==> archive::archive_slots(b)[i]
                == fat::ObjectSlot::Bytes(b.skip(start))
            &&& end <= 0xffff_ffff && b.len() < start ==> archive::archive_slots(b)[i]
                == fat::ObjectSlot::Bytes(Seq::empty())
        },
{
    law_container_test_goes_by_first_bytes(b);
    if 0 <= i < archive::archive_slots(b).len() {
        law_container_objects_are_at_their_records(b, i);
    }
}

/// A file that is shorter than sixteen bytes, or does not start with CA FE BA BE, is an archive of
/// one object, the file itself.
pub proof fn law_archive_of_other_file_is_the_file(b: Seq<u8>)
    requires
        b.len() < 16 || b[0] != 0xca || b[1] != 0xfe || b[2] != 0xba || b[3] != 0xbe,
    ensures
        !fat::has_container_signature(b),
        archive::archive_slots(b) == seq![fat::ObjectSlot::Bytes(b)],
{
}

/// Extracting from a place gives the object that is read from its bytes, or the error of reading
/// them. A missing record gives the error of reading the record, and a place out of range that of
/// reading no bytes.
pub proof fn law_extracting_reads_the_bytes(
    slot: fat::ObjectSlot,
    res: Result<MachObject, MachError>,
)
    requires
        fat::is_extract_of(slot, res),
    ensures
        match (slot, res) {
            (fat::ObjectSlot::Bytes(data), Ok(object)) => object@ == data && reader::object_failure(
                data,
            ) is None,
            (
                fat::ObjectSlot::Bytes(data),
                Err(MachError::BadObject(error)),
            ) => reader::object_failure(data) == Some(error),
            (fat::ObjectSlot::Missing(error), Err(MachError::BadObject(e))) => e == error,
            (
                fat::ObjectSlot::OutOfRange,
                Err(MachError::BadObject(error)),
            ) => reader::object_failure(Seq::empty()) == Some(error),
            (_, Ok(_)) => false,
        },
{
}

/// Resolving an object by its index gives the object that is read from the bytes in its place, or
/// the error of reading them, and nothing exactly if there is no such place.
pub proof fn law_resolving_reads_the_bytes(
    slots: Seq<fat::ObjectSlot>,
    i: int,
    res: Result<Option<MachObject>, MachError>,
)
    requires
        0 <= i,
        fat::is_extract_at(slots, i, res),
    ensures
        i >= slots.len() <==> res matches Ok(None),
        i < slots.len() ==> match (slots[i], res) {
            (fat::ObjectSlot::Bytes(data), Ok(Some(object))) => object@ == data
                && reader::object_failure(data) is None,
            (
                fat::ObjectSlot::Bytes(data),
                Err(MachError::BadObject(error)),
            ) => reader::object_failure(data) == Some(error),
            (fat::ObjectSlot::Missing(error), Err(MachError::BadObject(e))) => e == error,
            (
                fat::ObjectSlot::OutOfRange,
                Err(MachError::BadObject(error)),
            ) => reader::object_failure(Seq::empty()) == Some(error),
            (_, Ok(_)) => false,
        },
{
}

/// Extracting can be tried of every object but those whose entry point overflows.
pub proof fn law_all_but_overflowing_objects_can_be_extracted(slot: fat::ObjectSlot)
    ensures
        fat::is_extractable(slot) <==> match slot {
            fat::ObjectSlot::Bytes(data) => entry::entry_fits(data),
            _ => true,
        },
{
}

// Reading an object.
/// Parsing gives an object with the data as its contents, or the error that reading the data gives.
pub proof fn law_parsing_reads_the_data(data: Seq<u8>, res: Result<MachObject, MachError>)
    requires
        object::is_parse_of(data, res),
    ensures
        match res {
            Ok(object) => object@ == data && reader::object_failure(data) is None,
            Err(MachError::BadObject(error)) => reader::object_failure(data) == Some(error),
        },
{
}

/// A file holds all of its load commands exactly if it has 32 bytes or more and starts with a magic
/// number, the commands can be as many and as long as the header says, and it holds each of them.
pub proof fn law_files_hold_their_commands(b: Seq<u8>)
    ensures
        layout::has_all_commands(b) <==> {
            &&& b.len() >= 32
            &&& object::has_object_signature(b)
            &&& 8 * layout::u32_at(b, 16) <= layout::u32_at(b, 20) <= b.len()
            &&& forall|i: int|
                0 <= i < layout::u32_at(b, 16) ==> layout::has_command_at(
                    b,
                    #[trigger] layout::command_offset(b, i),
                )
        },
{
    if layout::has_all_commands(b) {
        assert forall|i: int| 0 <= i < layout::u32_at(b, 16) implies layout::has_command_at(
            b,
            #[trigger] layout::command_offset(b, i),
        ) by {
            assert(layout::has_command(b, i));
        }
    }
}

/// A file holds a load command exactly if it holds the eight bytes that all commands start with, as
/// many bytes as the command claims, the fields of the kinds that matter here and what they refer
/// to, and the string table does not lie before the symbol table.
pub proof fn law_commands_are_held_with_their_fields(b: Seq<u8>, off: int)
    ensures
        layout::has_command_at(b, off) <==> {
            let kind = layout::u32_at(b, off);
            &&& off + 8 <= b.len()
            &&& off + layout::u32_at(b, off + 4) <= b.len()
            &&& kind == 0x1 ==> off + 56 <= b.len() && (layout::u32_at(b, off + 36) == 0
                || layout::u32_at(b, off + 32) + layout::u32_at(b, off + 36) <= b.len())
            &&& kind == 0x19 ==> off + 72 <= b.len() && (layout::u64_at(b, off + 48) == 0
                || layout::u64_at(b, off + 40) + layout::u64_at(b, off + 48) <= b.len())
            &&& kind == 0x2 ==> off + 24 <= b.len() && layout::u32_at(b, off + 8) <= b.len()
                && layout::u32_at(b, off + 8) <= layout::u32_at(b, off + 16)
            &&& kind == 0x1b || kind == 0x8000_0028 ==> off + 24 <= b.len()
        },
{
}

/// A file that holds all of its load commands is an object if they declare segments, locate the
/// symbol table or hold identifiers, or if they locate the entry point and the `j`-th declares a
/// text segment.
pub proof fn law_plain_files_are_objects(
    b: Seq<u8>,
    j: int,
    res: Result<MachObject, MachError>,
)
    requires
        layout::has_all_commands(b),
        forall|i: int|
            #![trigger layout::command_kind(b, i)]
            0 <= i < layout::u32_at(b, 16) ==> {
                ||| layout::command_kind(b, i) == 0x1
                ||| layout::command_kind(b, i) == 0x2
                ||| layout::command_kind(b, i) == 0x19
                ||| layout::command_kind(b, i) == 0x1b
                ||| layout::command_kind(b, i) == 0x8000_0028 && 0 <= j < layout::u32_at(b, 16)
            },
        0 <= j < layout::u32_at(b, 16) ==> {
            let name = layout::command_offset(b, j) + 8;
            &&& layout::command_kind(b, j) == 0x1 || layout::command_kind(b, j) == 0x19
            &&& b[name] == 0x5f && b[name + 1] == 0x5f && b[name + 2] == 0x54 && b[name + 3] == 0x45
            &&& b[name + 4] == 0x58 && b[name + 5] == 0x54 && b[name + 6] == 0
        },
        object::is_parse_of(b, res),
    ensures
        res matches Ok(object) && object@ == b,
{
    let n = layout::command_count(b);
    layout::lemma_first_index(entry::main_command(b), 0, n);
    layout::lemma_first_index(entry::text_command(b), 0, n);
    if 0 <= j < n {
        assert(entry::text_command(b)(j));
    }
    assert(layout::is_plain_file(b));
}

// The entry point.
/// The entry point fits in a file that does not hold all of its load commands.
pub proof fn law_entry_point_fits_in_incomplete_files(b: Seq<u8>)
    requires
        !layout::has_all_commands(b),
    ensures
        entry::entry_fits(b),
{
}

/// The entry point fits where no load command locates it.
pub proof fn law_entry_point_fits_if_not_located(b: Seq<u8>)
    requires
        forall|i: int|
            0 <= i < layout::u32_at(b, 16) ==> #[trigger] layout::command_kind(b, i) != 0x8000_0028,
    ensures
        entry::entry_fits(b),
{
    let n = layout::command_count(b);
    layout::lemma_first_index(entry::main_command(b), 0, n);
    if let Some(i) = layout::first_index(entry::main_command(b), 0, n) {
        assert(layout::command_kind(b, i) == 0x8000_0028);
    }
}

/// The entry point fits where no load command declares a text segment.
pub proof fn law_entry_point_fits_without_text_segment(b: Seq<u8>)
    requires
        forall|j: int|
            #![trigger layout::command_offset(b, j)]
            0 <= j < layout::u32_at(b, 16) ==> ({
                let name = layout::command_offset(b, j) + 8;
                ||| layout::command_kind(b, j) != 0x1 && layout::command_kind(b, j) != 0x19
                ||| b[name] != 0x5f || b[name + 1] != 0x5f || b[name + 2] != 0x54
                ||| b[name + 3] != 0x45 || b[name + 4] != 0x58 || b[name + 5] != 0x54
                ||| b[name + 6] != 0
            }),
    ensures
        entry::entry_fits(b),
{
    let n = layout::command_count(b);
    layout::lemma_first_index(entry::text_command(b), 0, n);
    if let Some(j) = layout::first_index(entry::text_command(b), 0, n) {
        assert(entry::text_command(b)(j));
        assert(layout::command_offset(b, j) == layout::command_offset(b, j));
    }
}

/// Where the `i`-th load command is the first that locates the entry point, and the `j`-th is the
/// first that declares a text segment, the entry point fits exactly if the address of the segment
/// less its place in the file, and the sum of that and the entry point, have 64 bits.
pub proof fn law_entry_point_fits_in_64_bits(b: Seq<u8>, i: int, j: int)
    requires
        layout::has_all_commands(b),
        0 <= i < layout::u32_at(b, 16),
        layout::command_kind(b, i) == 0x8000_0028,
        forall|k: int| 0 <= k < i ==> #[trigger] layout::command_kind(b, k) != 0x8000_0028,
        0 <= j < layout::u32_at(b, 16),
        layout::command_kind(b, j) == 0x1 || layout::command_kind(b, j) == 0x19,
        ({
            let name = layout::command_offset(b, j) + 8;
            &&& b[name] == 0x5f && b[name + 1] == 0x5f && b[name + 2] == 0x54 && b[name + 3] == 0x45
            &&& b[name + 4] == 0x58 && b[name + 5] == 0x54 && b[name + 6] == 0
        }),
        forall|k: int|
            #![trigger layout::command_offset(b, k)]
            0 <= k < j ==> {
                let name = layout::command_offset(b, k) + 8;
                ||| layout::command_kind(b, k) != 0x1 && layout::command_kind(b, k) != 0x19
                ||| b[name] != 0x5f || b[name + 1] != 0x5f || b[name + 2] != 0x54
                ||| b[name + 3] != 0x45 || b[name + 4] != 0x58 || b[name + 5] != 0x54
                ||| b[name + 6] != 0
            },
    ensures
        ({
            let main = layout::command_offset(b, i);
            let text = layout::command_offset(b, j);
            let wide = layout::command_kind(b, j) == 0x19;
            let vmaddr = if wide {
                layout::u64_at(b, text + 24)
            } else {
                layout::u32_at(b, text + 24)
            };
            let fileoff = if wide {
                layout::u64_at(b, text + 40)
            } else {
                layout::u32_at(b, text + 32)
            };
            entry::entry_fits(b) <==> fileoff <= vmaddr && vmaddr - fileoff + layout::u64_at(
                b,
                main + 8,
            ) <= 0xffff_ffff_ffff_ffff
        }),
{
    let n = layout::command_count(b);
    layout::lemma_first_index(entry::main_command(b), 0, n);
    layout::lemma_first_index(entry::text_command(b), 0, n);
    assert(entry::main_command(b)(i));
    assert(entry::text_command(b)(j));
    if let Some(k) = layout::first_index(entry::text_command(b), 0, n) {
        assert(entry::text_command(b)(k));
        assert(k < j ==> layout::command_offset(b, k) == layout::command_offset(b, k));
    }
    if let Some(k) = layout::first_index(entry::main_command(b), 0, n) {
        assert(entry::main_command(b)(k));
    }
}

// Identifiers.
/// Where the `i`-th load command is the first that holds an identifier, the debug identifier has
/// the sixteen bytes in it, and the code identifier is their hexadecimal form.
pub proof fn law_identifier_is_in_first_command_of_its_kind(b: Seq<u8>, i: int)
    requires
        0 <= i < layout::u32_at(b, 16),
        layout::command_kind(b, i) == 0x1b,
        forall|k: int| 0 <= k < i ==> #[trigger] layout::command_kind(b, k) != 0x1b,
    ensures
        ({
            let off = layout::command_offset(b, i);
            &&& image::debug_uuid(b) == b.subrange(off + 8, off + 24)
            &&& image::code_id(b) == Some(ident::hex(b.subrange(off + 8, off + 24)))
        }),
{
    let uuids = layout::uuid_command(b);
    layout::lemma_first_index(uuids, 0, layout::command_count(b));
    assert(uuids(i));
    if let Some(k) = layout::first_index(uuids, 0, layout::command_count(b)) {
        assert(uuids(k));
        assert(layout::command_kind(b, k) == 0x1b);
    }
}

/// Where no load command holds an identifier, there is no code identifier, and the debug identifier
/// is sixteen zeros.
pub proof fn law_no_identifier_without_command(b: Seq<u8>)
    requires
        forall|k: int|
            0 <= k < layout::u32_at(b, 16) ==> #[trigger] layout::command_kind(b, k) != 0x1b,
    ensures
        image::code_id(b) is None,
        image::debug_uuid(b).len() == 16,
        forall|k: int| 0 <= k < 16 ==> #[trigger] image::debug_uuid(b)[k] == 0,
{
    let uuids = layout::uuid_command(b);
    layout::lemma_first_index(uuids, 0, layout::command_count(b));
    if let Some(k) = layout::first_index(uuids, 0, layout::command_count(b)) {
        assert(uuids(k));
        assert(layout::command_kind(b, k) == 0x1b);
    }
}

/// The hexadecimal form has two digits for each byte, the higher one first: `0` to `9`, then `a` to
/// `f`.
pub proof fn law_hex_has_two_digits_for_each_byte(bytes: Seq<u8>, i: int)
    requires
        0 <= i < bytes.len(),
    ensures
        ident::hex(bytes).len() == 2 * bytes.len(),
        ({
            let high = bytes[i] as int / 16;
            let low = bytes[i] as int % 16;
            &&& ident::hex(bytes)[2 * i] as u32 == if high < 10 {
                0x30 + high
            } else {
                0x61 + high - 10
            }
            &&& ident::hex(bytes)[2 * i + 1] as u32 == if low < 10 {
                0x30 + low
            } else {
                0x61 + low - 10
            }
        }),
{
    let even = 2 * i;
    let odd = 2 * i + 1;
    assert(ident::hex(bytes)[even] == ident::hex_digit(bytes[i] as int / 16));
    assert(ident::hex(bytes)[odd] == ident::hex_digit(bytes[i] as int % 16));
}

// Architectures and kinds.
/// Each architecture stands for one CPU type with one subtype, and each unknown kind of an
/// architecture for all other subtypes of its CPU type.
pub proof fn law_architectures_are_told_by_numbers(cpu: int, sub: int)
    ensures
        base::arch_of(cpu, sub) == Arch::X86 <==> cpu == 7 && sub == 3,
        base::arch_of(cpu, sub) == Arch::X86Unknown <==> cpu == 7 && sub != 3,
        base::arch_of(cpu, sub) == Arch::Amd64 <==> cpu == 0x0100_0007 && sub == 3,
        base::arch_of(cpu, sub) == Arch::Amd64h <==> cpu == 0x0100_0007 && sub == 8,
        base::arch_of(cpu, sub) == Arch::Amd64Unknown <==> cpu == 0x0100_0007 && sub != 3 && sub
            != 8,
        base::arch_of(cpu, sub) == Arch::Arm64 <==> cpu == 0x0100_000c && sub == 0,
        base::arch_of(cpu, sub) == Arch::Arm64V8 <==> cpu == 0x0100_000c && sub == 1,
        base::arch_of(cpu, sub) == Arch::Arm64e <==> cpu == 0x0100_000c && sub == 2,
        base::arch_of(cpu, sub) == Arch::Arm64Unknown <==> cpu == 0x0100_000c && sub != 0 && sub
            != 1 && sub != 2,
        base::arch_of(cpu, sub) == Arch::Arm64_32 <==> cpu == 0x0200_000c && sub == 0,
        base::arch_of(cpu, sub) == Arch::Arm64_32V8 <==> cpu == 0x0200_000c && sub == 1,
        base::arch_of(cpu, sub) == Arch::Arm64_32Unknown <==> cpu == 0x0200_000c && sub != 0 && sub
            != 1,
        base::arch_of(cpu, sub) == Arch::Arm <==> cpu == 12 && sub == 0,
        base::arch_of(cpu, sub) == Arch::ArmV5 <==> cpu == 12 && sub == 7,
        base::arch_of(cpu, sub) == Arch::ArmV6 <==> cpu == 12 && sub == 6,
        base::arch_of(cpu, sub) == Arch::ArmV6m <==> cpu == 12 && sub == 14,
        base::arch_of(cpu, sub) == Arch::ArmV7 <==> cpu == 12 && sub == 9,
        base::arch_of(cpu, sub) == Arch::ArmV7f <==> cpu == 12 && sub == 10,
        base::arch_of(cpu, sub) == Arch::ArmV7s <==> cpu == 12 && sub == 11,
        base::arch_of(cpu, sub) == Arch::ArmV7k <==> cpu == 12 && sub == 12,
        base::arch_of(cpu, sub) == Arch::ArmV7m <==> cpu == 12 && sub == 15,
        base::arch_of(cpu, sub) == Arch::ArmV7em <==> cpu == 12 && sub == 16,
        base::arch_of(cpu, sub) == Arch::ArmUnknown <==> cpu == 12 && sub != 0 && sub != 6 && sub
            != 7 && !(9 <= sub <= 12) && !(14 <= sub <= 16),
        base::arch_of(cpu, sub) == Arch::Ppc <==> cpu == 18 && sub == 0,
        base::arch_of(cpu, sub) == Arch::Ppc64 <==> cpu == 0x0100_0012 && sub == 0,
{
}

/// Each kind of object stands for these file types.
pub proof fn law_kinds_are_told_by_numbers(filetype: int)
    ensures
        base::kind_of(filetype) == ObjectKind::Relocatable <==> filetype == 1,
        base::kind_of(filetype) == ObjectKind::Executable <==> filetype == 2 || filetype == 5
            || filetype == 7,
        base::kind_of(filetype) == ObjectKind::Library <==> filetype == 3 || filetype == 6
            || filetype == 8 || filetype == 11,
        base::kind_of(filetype) == ObjectKind::Dump <==> filetype == 4,
        base::kind_of(filetype) == ObjectKind::Debug <==> filetype == 10,
        base::kind_of(filetype) == ObjectKind::Other <==> filetype < 1 || filetype == 9 || filetype
            > 11,
{
}

// The header and the load commands.
/// Numbers have their least significant byte first in files that start with CE FA ED FE or with
/// CF FA ED FE, and their most significant byte first in others.
pub proof fn law_numbers_have_the_byte_order_of_the_file(b: Seq<u8>, off: int)
    requires
        object::has_object_signature(b),
    ensures
        layout::is_little_endian(b) <==> b[0] != 0xfe,
        layout::is_64(b) <==> b[0] == 0xcf || b[3] == 0xcf,
        b[0] != 0xfe ==> {
            &&& layout::u32_at(b, off) == b[off] + b[off + 1] * 0x100 + b[off + 2] * 0x1_0000
                + b[off + 3] * 0x100_0000
            &&& layout::u64_at(b, off) == b[off] + b[off + 1] * 0x100 + b[off + 2] * 0x1_0000
                + b[off + 3] * 0x100_0000 + 0x1_0000_0000 * (b[off + 4] + b[off + 5] * 0x100
                + b[off + 6] * 0x1_0000 + b[off + 7] * 0x100_0000)
        },
        b[0] == 0xfe ==> {
            &&& layout::u32_at(b, off) == b[off + 3] + b[off + 2] * 0x100 + b[off + 1] * 0x1_0000
                + b[off] * 0x100_0000
            &&& layout::u64_at(b, off) == b[off + 7] + b[off + 6] * 0x100 + b[off + 5] * 0x1_0000
                + b[off + 4] * 0x100_0000 + 0x1_0000_0000 * (b[off + 3] + b[off + 2] * 0x100 + b[off
                + 1] * 0x1_0000 + b[off] * 0x100_0000)
        },
{
    law_object_test_goes_by_first_bytes(b);
}

/// The header has the CPU type, the CPU subtype with capability bits in its topmost byte, the file
/// type, and the number and size of the load commands, one after the other.
pub proof fn law_header_has_its_numbers(b: Seq<u8>)
    ensures
        layout::cpu_type(b) == layout::u32_at(b, 4),
        layout::u32_at(b, 8) - layout::cpu_subtype(b) == 0x100_0000 * (layout::u32_at(b, 8)
            / 0x100_0000),
        layout::file_type(b) == layout::u32_at(b, 12),
        layout::command_count(b) == layout::u32_at(b, 16),
        layout::commands_size(b) == layout::u32_at(b, 20),
{
}

/// Load commands follow the header and each other, and start with their kind and their size.
pub proof fn law_commands_follow_each_other(b: Seq<u8>, i: int)
    requires
        0 <= i,
    ensures
        layout::is_64(b) ==> layout::command_offset(b, 0) == 32,
        !layout::is_64(b) ==> layout::command_offset(b, 0) == 28,
        layout::command_offset(b, i + 1) == layout::command_offset(b, i) + layout::u32_at(
            b,
            layout::command_offset(b, i) + 4,
        ),
        layout::command_kind(b, i) == layout::u32_at(b, layout::command_offset(b, i)),
{
}

/// A text is what stands before the first zero byte, or all of it if there is none, provided that
/// it is valid UTF-8.
pub proof fn law_texts_end_at_first_zero(t: Seq<u8>, rest: Seq<u8>)
    requires
        forall|i: int| 0 <= i < t.len() ==> #[trigger] t[i] != 0,
    ensures
        layout::text(t) == layout::text(t + seq![0u8] + rest),
        layout::text(t) is Some <==> vstd::utf8::valid_utf8(t),
        layout::text(t) matches Some(chars) ==> vstd::utf8::encode_utf8(chars) == t,
{
    lemma_cstring(t, Seq::empty());
    lemma_cstring(t, seq![0u8] + rest);
    assert(t + Seq::<u8>::empty() =~= t);
    assert(t + (seq![0u8] + rest) =~= t + seq![0u8] + rest);
    if vstd::utf8::valid_utf8(t) {
        vstd::utf8::decode_utf8_encode_utf8(t);
    }
}

/// The bytes before a zero byte or the end.
proof fn lemma_cstring(t: Seq<u8>, rest: Seq<u8>)
    requires
        forall|i: int| 0 <= i < t.len() ==> #[trigger] t[i] != 0,
        rest.len() > 0 ==> rest[0] == 0,
    ensures
        layout::cstring(t + rest) == t,
    decreases t.len(),
{
    if t.len() > 0 {
        assert forall|i: int| 0 <= i < t.len() - 1 implies #[trigger] t.drop_first()[i] != 0 by {
            assert(t[i + 1] != 0);
        }
        lemma_cstring(t.drop_first(), rest);
        assert((t + rest).drop_first() =~= t.drop_first() + rest);
        assert(seq![t[0]] + t.drop_first() =~= t);
    } else {
        assert(t + rest =~= rest);
    }
}

// Segments.
/// The segments are, in order, those that the load commands at `places` declare, which are all
/// commands of the two kinds that declare segments.
pub proof fn law_segments_are_those_of_commands(b: Seq<u8>) -> (places: Seq<int>)
    ensures
        places.len() == layout::segments(b).len(),
        forall|i: int, j: int| 0 <= i < j < places.len() ==> #[trigger] places[i]
            < #[trigger] places[j],
        forall|i: int|
            #![trigger places[i]]
            0 <= i < places.len() ==> {
                let off = layout::command_offset(b, places[i]);
                let wide = layout::command_kind(b, places[i]) == 0x19;
                &&& 0 <= places[i] < layout::u32_at(b, 16)
                &&& layout::segments(b)[i].command == off
                &&& layout::segments(b)[i].name == layout::text(b.subrange(off + 8, off + 24))
                &&& wide ==> layout::segments(b)[i].vmaddr == layout::u64_at(b, off + 24)
                &&& wide ==> layout::segments(b)[i].nsects == layout::u32_at(b, off + 64)
                &&& !wide ==> layout::segments(b)[i].vmaddr == layout::u32_at(b, off + 24)
                &&& !wide ==> layout::segments(b)[i].nsects == layout::u32_at(b, off + 48)
            },
        forall|k: int|
            0 <= k < layout::u32_at(b, 16) ==> (#[trigger] places.contains(k) <==> (
            layout::command_kind(b, k) == 0x1 || layout::command_kind(b, k) == 0x19)),
{
    lemma_segment_places(b, layout::u32_at(b, 16))
}

/// Where the commands that declare segments are.
proof fn lemma_segment_places(b: Seq<u8>, n: int) -> (places: Seq<int>)
    ensures
        places.len() == layout::segments_until(b, n).len(),
        forall|i: int, j: int| 0 <= i < j < places.len() ==> #[trigger] places[i]
            < #[trigger] places[j],
        forall|i: int|
            #![trigger places[i]]
            0 <= i < places.len() ==> 0 <= places[i] < n && layout::segments_until(b, n)[i]
                == layout::command_segment(b, places[i]),
        forall|k: int|
            0 <= k < n ==> (#[trigger] places.contains(k) <==> layout::is_segment_command(b, k)),
    decreases n,
{
    if n <= 0 {
        Seq::empty()
    } else {
        let before = lemma_segment_places(b, n - 1);
        let places = if layout::is_segment_command(b, n - 1) {
            before.push(n - 1)
        } else {
            before
        };
        assert forall|k: int| 0 <= k < n implies (#[trigger] places.contains(k)
            <==> layout::is_segment_command(b, k)) by {
            if before.contains(k) {
                let i = choose|i: int| 0 <= i < before.len() && before[i] == k;
                assert(places[i] == k);
            }
            if k == n - 1 && layout::is_segment_command(b, k) {
                assert(places.last() == k);
            }
            if places.contains(k) && k < n - 1 {
                let i = choose|i: int| 0 <= i < places.len() && places[i] == k;
                assert(before[i] == k);
            }
        }
        places
    }
}

/// A segment has as many section headers as its command says, one after the other behind the
/// command. A section is missing if the file does not hold all of its header. Its contents are the
/// bytes at its offset, unless the file does not hold all of them or the section takes no space in
/// the file.
pub proof fn law_section_headers_follow_their_command(
    b: Seq<u8>,
    segment: layout::SegmentLayout,
    j: int,
)
    requires
        0 <= j < segment.nsects,
    ensures
        layout::segment_sections(b, segment).len() == segment.nsects,
        ({
            let wide = layout::is_64(b);
            let size: int = if wide {
                80
            } else {
                68
            };
            let off = segment.command + (if wide {
                72
            } else {
                56int
            }) + j * size;
            let offset = layout::u32_at(
                b,
                if wide {
                    off + 48
                } else {
                    off + 40
                },
            );
            let length = if wide {
                layout::u64_at(b, off + 40)
            } else {
                layout::u32_at(b, off + 36)
            };
            let kind = layout::u32_at(
                b,
                if wide {
                    off + 64
                } else {
                    off + 56
                },
            ) % 0x100;
            let section = layout::segment_sections(b, segment)[j];
            &&& section is None <==> off + size > b.len()
            &&& section matches Some(s) ==> {
                &&& s.name == layout::text(b.subrange(off, off + 16))
                &&& wide ==> s.addr == layout::u64_at(b, off + 32)
                &&& !wide ==> s.addr == layout::u32_at(b, off + 32)
                &&& s.offset == offset
                &&& s.align == layout::u32_at(
                    b,
                    if wide {
                        off + 52
                    } else {
                        off + 44
                    },
                )
                &&& kind == 0x1 || kind == 0xc || kind == 0x12 ==> s.data == Seq::<u8>::empty()
                &&& kind != 0x1 && kind != 0xc && kind != 0x12 && offset + length <= b.len()
                    ==> s.data == b.subrange(offset, offset + length)
                &&& offset + length > b.len() ==> s.data == Seq::<u8>::empty()
            }
        }),
{
}

// The load address.
/// Where the `i`-th segment is the first with the name `__TEXT`, the load address is its address,
/// whatever else the segment declares.
pub proof fn law_load_address_is_that_of_first_text_segment(b: Seq<u8>, i: int)
    requires
        0 <= i < layout::segments(b).len(),
        layout::segments(b)[i].name == Some("__TEXT"@),
        forall|k: int|
            0 <= k < i ==> (#[trigger] layout::segments(b)[k]).name != Some("__TEXT"@),
    ensures
        image::load_address(b) == layout::segments(b)[i].vmaddr,
{
    let text = image::text_segment(b);
    let n = layout::segments(b).len() as int;
    layout::lemma_first_index(text, 0, n);
    assert(text(i));
    if let Some(k) = layout::first_index(text, 0, n) {
        assert(text(k));
    }
}

/// Where no segment has the name `__TEXT`, the load address is zero.
pub proof fn law_load_address_is_zero_without_text_segment(b: Seq<u8>)
    requires
        forall|k: int|
            0 <= k < layout::segments(b).len() ==> (#[trigger] layout::segments(b)[k]).name != Some(
                "__TEXT"@,
            ),
    ensures
        image::load_address(b) == 0,
{
    let text = image::text_segment(b);
    let n = layout::segments(b).len() as int;
    layout::lemma_first_index(text, 0, n);
    if let Some(k) = layout::first_index(text, 0, n) {
        assert(text(k));
    }
}

// Sections.
/// Sections are numbered through over all segments: those of the `k`-th segment have the numbers
/// from `starts[k]` on, where each segment starts behind the sections of the one before it.
pub proof fn law_sections_are_numbered_through(b: Seq<u8>) -> (starts: Seq<int>)
    ensures
        starts.len() == layout::segments(b).len() + 1,
        starts[0] == 0,
        layout::sections(b).len() == starts.last(),
        forall|k: int|
            0 <= k < layout::segments(b).len() ==> #[trigger] starts[k + 1] == starts[k]
                + layout::segments(b)[k].nsects,
        forall|k: int, j: int|
            0 <= k < layout::segments(b).len() && 0 <= j < layout::segments(b)[k].nsects ==> {
                let section = #[trigger] layout::sections(b)[starts[k] + j];
                &&& section.segment == layout::segments(b)[k].name
                &&& section.section == layout::segment_sections(b, layout::segments(b)[k])[j]
            },
{
    let n = layout::segments(b).len() as int;
    let starts = Seq::new((n + 1) as nat, |k: int| layout::sections_until(b, k).len() as int);
    assert forall|k: int| 0 <= k < n implies #[trigger] starts[k + 1] == starts[k]
        + layout::segments(b)[k].nsects by {
        layout::lemma_sections_of_segment(b, k, n);
    }
    assert forall|k: int, j: int|
        0 <= k < n && 0 <= j < layout::segments(b)[k].nsects implies {
        let section = #[trigger] layout::sections(b)[starts[k] + j];
        &&& section.segment == layout::segments(b)[k].name
        &&& section.section == layout::segment_sections(b, layout::segments(b)[k])[j]
    } by {
        layout::lemma_sections_of_segment(b, k, n);
        let placed = layout::placed_sections(b, layout::segments(b)[k]);
        assert(placed[j] == layout::sections(b)[layout::sections_until(b, k).len() + j]);
    }
    starts
}

/// A section holds code exactly if it has the name `__text` or `__stubs` and is listed by a segment
/// with the name `__TEXT`, and no section before it in a segment of that name is missing.
pub proof fn law_code_sections_are_told_by_names(b: Seq<u8>, n: int)
    ensures
        image::code_sections(b).contains(n) <==> {
            &&& 0 <= n < layout::sections(b).len()
            &&& layout::sections(b)[n].segment == Some("__TEXT"@)
            &&& layout::sections(b)[n].section matches Some(s) && (s.name == Some("__text"@)
                || s.name == Some("__stubs"@))
            &&& forall|m: int|
                0 <= m < n ==> !((#[trigger] layout::sections(b)[m]).segment == Some("__TEXT"@)
                    && layout::sections(b)[m].section is None)
        },
{
    let all = layout::sections(b);
    if 0 <= n < all.len() {
        assert((forall|m: int| 0 <= m < n ==> !image::is_broken(#[trigger] all[m])) <==> (forall|
            m: int,
        |
            0 <= m < n ==> !((#[trigger] all[m]).segment == Some("__TEXT"@) && all[m].section
                is None))) by {
            if forall|m: int| 0 <= m < n ==> !image::is_broken(#[trigger] all[m]) {
                assert forall|m: int| 0 <= m < n implies !((#[trigger] all[m]).segment == Some(
                    "__TEXT"@,
                ) && all[m].section is None) by {
                    assert(!image::is_broken(all[m]));
                }
            }
        }
    }
}

/// Where the `i`-th section is the first whose name goes on with the given one after two bytes, the
/// search finds its address, offset, alignment and contents, unless its offset is zero: then it
/// finds nothing.
pub proof fn law_first_section_of_the_name_is_found(b: Seq<u8>, name: Seq<char>, i: int)
    requires
        0 <= i < layout::sections(b).len(),
        layout::sections(b)[i].section matches Some(s) && s.name matches Some(n)
            && vstd::utf8::encode_utf8(n).len() >= 2 && vstd::utf8::encode_utf8(n).skip(2)
            == vstd::utf8::encode_utf8(name),
        forall|k: int|
            0 <= k < i ==> !((#[trigger] layout::sections(b)[k]).section matches Some(s) && s.name
                matches Some(n) && vstd::utf8::encode_utf8(n).len() >= 2
                && vstd::utf8::encode_utf8(n).skip(2) == vstd::utf8::encode_utf8(name)),
    ensures
        image::find_section(b, name) == Some(i),
        layout::sections(b)[i].section matches Some(s) && {
            &&& s.offset != 0 ==> image::raw_section(b, name) == Some(s)
            &&& s.offset == 0 ==> image::raw_section(b, name) is None
        },
{
    let named = image::named_section(b, name);
    let n = layout::sections(b).len() as int;
    layout::lemma_first_index(named, 0, n);
    assert(named(i));
    if let Some(k) = layout::first_index(named, 0, n) {
        assert(named(k));
        assert(image::has_name(layout::sections(b)[k], name));
    }
}

/// Where no section name goes on with the given one after two bytes, the search finds nothing.
pub proof fn law_no_section_without_the_name(b: Seq<u8>, name: Seq<char>)
    requires
        forall|k: int|
            0 <= k < layout::sections(b).len() ==> !((#[trigger] layout::sections(b)[k]).section
                matches Some(s) && s.name matches Some(n) && vstd::utf8::encode_utf8(n).len() >= 2
                && vstd::utf8::encode_utf8(n).skip(2) == vstd::utf8::encode_utf8(name)),
    ensures
        image::find_section(b, name) is None,
        image::raw_section(b, name) is None,
{
    let named = image::named_section(b, name);
    let n = layout::sections(b).len() as int;
    layout::lemma_first_index(named, 0, n);
    if let Some(k) = layout::first_index(named, 0, n) {
        assert(named(k));
        assert(image::has_name(layout::sections(b)[k], name));
    }
}

/// What is found is the first section of the name: there is one whose offset is not zero.
pub proof fn law_found_section_is_first_of_the_name(b: Seq<u8>, name: Seq<char>) -> (i: int)
    requires
        image::raw_section(b, name) is Some,
    ensures
        0 <= i < layout::sections(b).len(),
        layout::sections(b)[i].section == image::raw_section(b, name),
        layout::sections(b)[i].section matches Some(s) && s.offset != 0,
        layout::sections(b)[i].section matches Some(s) && s.name matches Some(n)
            && vstd::utf8::encode_utf8(n).len() >= 2 && vstd::utf8::encode_utf8(n).skip(2)
            == vstd::utf8::encode_utf8(name),
        forall|k: int|
            0 <= k < i ==> !((#[trigger] layout::sections(b)[k]).section matches Some(s) && s.name
                matches Some(n) && vstd::utf8::encode_utf8(n).len() >= 2
                && vstd::utf8::encode_utf8(n).skip(2) == vstd::utf8::encode_utf8(name)),
{
    let named = image::named_section(b, name);
    let n = layout::sections(b).len() as int;
    layout::lemma_first_index(named, 0, n);
    let i = image::find_section(b, name)->0;
    assert(named(i));
    assert forall|k: int| 0 <= k < i implies !((#[trigger] layout::sections(b)[k]).section matches
        Some(s) && s.name matches Some(n) && vstd::utf8::encode_utf8(n).len() >= 2
        && vstd::utf8::encode_utf8(n).skip(2) == vstd::utf8::encode_utf8(name)) by {
        assert(!named(k));
    }
    i
}

/// A section name with two underscores, or two other ASCII characters, is that of what follows.
pub proof fn law_section_names_are_told_behind_two_characters(p: char, q: char, name: Seq<char>)
    requires
        p as u32 <= 0x7f,
        q as u32 <= 0x7f,
    ensures
        vstd::utf8::encode_utf8(seq![p, q] + name).len() >= 2,
        vstd::utf8::encode_utf8(seq![p, q] + name).skip(2) == vstd::utf8::encode_utf8(name),
        image::name_matches(Some(seq![p, q] + name), name),
{
    let full = seq![p, q] + name;
    let rest = seq![q] + name;
    assert(full.drop_first() =~= rest);
    assert(rest.drop_first() =~= name);
    let bytes = vstd::utf8::encode_utf8(full);
    assert(bytes == vstd::utf8::encode_scalar(p as u32) + vstd::utf8::encode_utf8(rest));
    assert(vstd::utf8::encode_utf8(rest) == vstd::utf8::encode_scalar(q as u32)
        + vstd::utf8::encode_utf8(rest.drop_first()));
    assert(bytes.skip(2) =~= vstd::utf8::encode_utf8(name));
}

/// A section can be searched for where each name that the search comes upon, up to the first one
/// that goes on with the given one after two bytes, has no character across its second and third
/// byte. Here the `i`-th section is that first one.
pub proof fn law_section_can_be_searched_for(b: Seq<u8>, name: Seq<char>, i: int)
    requires
        0 <= i <= layout::sections(b).len(),
        i < layout::sections(b).len() ==> (layout::sections(b)[i].section matches Some(s) && s.name
            matches Some(n) && vstd::utf8::encode_utf8(n).len() >= 2 && vstd::utf8::encode_utf8(
            n,
        ).skip(2) == vstd::utf8::encode_utf8(name)),
        forall|k: int|
            0 <= k < i ==> ((#[trigger] layout::sections(b)[k]).section matches Some(s) ==> s.name
                matches Some(n) ==> vstd::utf8::encode_utf8(n).len() <= 2 || !(0x80
                <= vstd::utf8::encode_utf8(n)[2] <= 0xbf)),
    ensures
        image::can_find_section(b, name),
{
    let named = image::named_section(b, name);
    let n = layout::sections(b).len() as int;
    layout::lemma_first_index(named, 0, n);
    if i < n {
        assert(named(i));
    }
    assert forall|k: int|
        0 <= k < n && (image::find_section(b, name) matches Some(m) ==> k
            < m) implies image::is_splittable(#[trigger] layout::sections(b)[k]) by {
        assert(k < i);
        lemma_splits(layout::sections(b)[k]);
    }
}

/// A section cannot be searched for where the search comes upon a name with a character across its
/// second and third byte. Here the `i`-th section has such a name, and no section up to it has one
/// that goes on with the given one after two bytes.
pub proof fn law_section_cannot_be_searched_for(b: Seq<u8>, name: Seq<char>, i: int)
    requires
        0 <= i < layout::sections(b).len(),
        layout::sections(b)[i].section matches Some(s) && s.name matches Some(n)
            && vstd::utf8::encode_utf8(n).len() > 2 && 0x80 <= vstd::utf8::encode_utf8(n)[2]
            <= 0xbf,
        forall|k: int|
            0 <= k <= i ==> !((#[trigger] layout::sections(b)[k]).section matches Some(s) && s.name
                matches Some(n) && vstd::utf8::encode_utf8(n).len() >= 2
                && vstd::utf8::encode_utf8(n).skip(2) == vstd::utf8::encode_utf8(name)),
    ensures
        !image::can_find_section(b, name),
{
    let named = image::named_section(b, name);
    let n = layout::sections(b).len() as int;
    layout::lemma_first_index(named, 0, n);
    if let Some(k) = layout::first_index(named, 0, n) {
        assert(named(k));
        assert(image::has_name(layout::sections(b)[k], name));
    }
    lemma_splits(layout::sections(b)[i]);
    assert(!image::is_splittable(layout::sections(b)[i]));
}

/// A name can be split after two bytes exactly if the third byte does not continue a character.
proof fn lemma_splits(section: layout::PlacedSection)
    ensures
        image::is_splittable(section) <==> (section.section matches Some(s) ==> s.name matches Some(
            n,
        ) ==> vstd::utf8::encode_utf8(n).len() <= 2 || !(0x80 <= vstd::utf8::encode_utf8(n)[2]
            <= 0xbf)),
{
    if let Some(s) = section.section {
        if let Some(n) = s.name {
            let bytes = vstd::utf8::encode_utf8(n);
            vstd::utf8::encode_utf8_valid_utf8(n);
            if bytes.len() == 2 {
                vstd::utf8::is_char_boundary_start_end_of_seq(bytes);
            }
            if bytes.len() > 2 {
                vstd::utf8::is_char_boundary_iff_not_is_continuation_byte(bytes, 2);
            }
        }
    }
}

// Symbols.
/// There is a symbol table if a load command locates one. The last such command counts: here the
/// `i`-th.
pub proof fn law_symbol_table_is_where_last_command_locates_it(b: Seq<u8>, i: int)
    requires
        0 <= i < layout::u32_at(b, 16),
        layout::command_kind(b, i) == 0x2,
        forall|k: int|
            i < k < layout::u32_at(b, 16) ==> #[trigger] layout::command_kind(b, k) != 0x2,
    ensures
        layout::symtab(b) == Some(layout::command_offset(b, i)),
{
    lemma_symtab(b, i, layout::u32_at(b, 16));
}

/// The last command that locates the symbol table is not passed over.
proof fn lemma_symtab(b: Seq<u8>, i: int, n: int)
    requires
        0 <= i < n,
        layout::command_kind(b, i) == 0x2,
        forall|k: int| i < k < n ==> #[trigger] layout::command_kind(b, k) != 0x2,
    ensures
        layout::symtab_until(b, n) == Some(layout::command_offset(b, i)),
    decreases n,
{
    if i < n - 1 {
        assert(layout::command_kind(b, n - 1) != 0x2);
        lemma_symtab(b, i, n - 1);
    }
}

/// There is no symbol table, and it has no entries, where no load command locates one.
pub proof fn law_no_symbol_table_without_command(b: Seq<u8>)
    requires
        forall|k: int|
            0 <= k < layout::u32_at(b, 16) ==> #[trigger] layout::command_kind(b, k) != 0x2,
    ensures
        layout::symtab(b) is None,
        layout::symbol_entries(b).len() == 0,
{
    lemma_no_symtab(b, layout::u32_at(b, 16));
}

/// Nothing locates the symbol table.
proof fn lemma_no_symtab(b: Seq<u8>, n: int)
    requires
        forall|k: int| 0 <= k < n ==> #[trigger] layout::command_kind(b, k) != 0x2,
    ensures
        layout::symtab_until(b, n) is None,
    decreases n,
{
    if n > 0 {
        assert(layout::command_kind(b, n - 1) != 0x2);
        lemma_no_symtab(b, n - 1);
    }
}

/// The symbol table has as many entries as its command says, one after the other from the place
/// that the command gives. An entry can be read if the file holds it and the start of its name, and
/// the name is valid UTF-8.
pub proof fn law_symbol_table_entries_follow_each_other(b: Seq<u8>, cmd: int, i: int)
    requires
        layout::symtab(b) == Some(cmd),
        0 <= i < layout::u32_at(b, cmd + 12),
    ensures
        layout::symbol_entries(b).len() == layout::u32_at(b, cmd + 12),
        ({
            let size: int = if layout::is_64(b) {
                16
            } else {
                12
            };
            let off = layout::u32_at(b, cmd + 8) + i * size;
            let name_off = layout::u32_at(b, cmd + 16) + layout::u32_at(b, off);
            let entry = layout::symbol_entries(b)[i];
            &&& entry is Some <==> off + size <= b.len() && name_off <= b.len() && layout::text(
                b.skip(name_off),
            ) is Some
            &&& entry matches Some(e) ==> {
                &&& layout::text(b.skip(name_off)) == Some(e.name)
                &&& e.n_type == b[off + 4]
                &&& e.n_sect == b[off + 5]
                &&& layout::is_64(b) ==> e.n_value == layout::u64_at(b, off + 8)
                &&& !layout::is_64(b) ==> e.n_value == layout::u32_at(b, off + 8)
            }
        }),
{
}

/// The symbols are, in order, those of the symbol table entries at `places`. These are all readable
/// entries with a value at or behind the load address, without debugger bits, of the kind that is
/// defined in a section, and with the number of a section with code. A symbol has the name of its
/// entry without one leading underscore, the distance of its value from the load address, and no
/// size.
pub proof fn law_symbols_are_those_of_entries_in_code(b: Seq<u8>) -> (places: Seq<int>)
    ensures
        places.len() == image::symbols(b).len(),
        forall|i: int, j: int| 0 <= i < j < places.len() ==> #[trigger] places[i]
            < #[trigger] places[j],
        forall|i: int|
            #![trigger image::symbols(b)[i]]
            0 <= i < places.len() ==> 0 <= places[i] < layout::symbol_entries(b).len() && (
            layout::symbol_entries(b)[places[i]] matches Some(e) && {
                &&& image::symbols(b)[i].address == e.n_value - image::load_address(b)
                &&& image::symbols(b)[i].size == 0
                &&& e.name.len() > 0 && e.name[0] == '_' ==> image::symbols(b)[i].name == Some(
                    e.name.drop_first(),
                )
                &&& e.name.len() == 0 || e.name[0] != '_' ==> image::symbols(b)[i].name == Some(
                    e.name,
                )
            }),
        forall|k: int|
            0 <= k < layout::symbol_entries(b).len() ==> (#[trigger] places.contains(k) <==> (
            layout::symbol_entries(b)[k] matches Some(e) && {
                let n = e.n_sect - 1;
                &&& e.n_value >= image::load_address(b)
                &&& e.n_type & 0xe0 == 0
                &&& e.n_type & 0x0e == 0x0e
                &&& 0 <= n < layout::sections(b).len()
                &&& layout::sections(b)[n].segment == Some("__TEXT"@)
                &&& layout::sections(b)[n].section matches Some(s) && (s.name == Some("__text"@)
                    || s.name == Some("__stubs"@))
                &&& forall|m: int|
                    0 <= m < n ==> !((#[trigger] layout::sections(b)[m]).segment == Some("__TEXT"@)
                        && layout::sections(b)[m].section is None)
            })),
{
    let entries = layout::symbol_entries(b);
    let code = image::code_sections(b);
    let base = image::load_address(b);
    let places = lemma_places(entries, code, base);
    assert forall|k: int| 0 <= k < entries.len() implies (#[trigger] places.contains(k) <==> (
    entries[k] matches Some(e) && {
        let n = e.n_sect - 1;
        &&& e.n_value >= base
        &&& e.n_type & 0xe0 == 0
        &&& e.n_type & 0x0e == 0x0e
        &&& 0 <= n < layout::sections(b).len()
        &&& layout::sections(b)[n].segment == Some("__TEXT"@)
        &&& layout::sections(b)[n].section matches Some(s) && (s.name == Some("__text"@) || s.name
            == Some("__stubs"@))
        &&& forall|m: int|
            0 <= m < n ==> !((#[trigger] layout::sections(b)[m]).segment == Some("__TEXT"@)
                && layout::sections(b)[m].section is None)
    })) by {
        if let Some(e) = entries[k] {
            law_code_sections_are_told_by_names(b, e.n_sect - 1);
            assert(places.contains(k) <==> image::is_function(e, code, base));
        }
    }
    places
}

/// Where the entries that stand for functions are.
proof fn lemma_places(
    entries: Seq<Option<layout::SymbolLayout>>,
    code: Set<int>,
    base: int,
) -> (places: Seq<int>)
    ensures
        places.len() == image::function_symbols(entries, code, base).len(),
        forall|i: int, j: int| 0 <= i < j < places.len() ==> #[trigger] places[i]
            < #[trigger] places[j],
        forall|i: int|
            #![trigger places[i]]
            0 <= i < places.len() ==> 0 <= places[i] < entries.len() && (entries[places[i]] matches
                Some(e) && image::function_symbols(entries, code, base)[i]
                == image::function_symbol(e, base)),
        forall|k: int|
            0 <= k < entries.len() ==> (#[trigger] places.contains(k) <==> (entries[k] matches Some(
                e,
            ) && image::is_function(e, code, base))),
    decreases entries.len(),
{
    if entries.len() == 0 {
        Seq::empty()
    } else {
        let tail = entries.drop_first();
        let rest = lemma_places(tail, code, base);
        let shifted = Seq::new(rest.len(), |i: int| rest[i] + 1);
        let first = match entries[0] {
            Some(entry) => image::is_function(entry, code, base),
            None => false,
        };
        let places = if first {
            seq![0int] + shifted
        } else {
            shifted
        };
        let d: int = if first {
            1
        } else {
            0
        };
        assert forall|i: int| d <= i < places.len() implies #[trigger] places[i] == rest[i - d]
            + 1 by {}
        assert forall|k: int| 0 <= k < entries.len() implies (#[trigger] places.contains(k) <==> (
        entries[k] matches Some(e) && image::is_function(e, code, base))) by {
            if k == 0 {
                if first {
                    assert(places[0] == 0);
                }
            } else {
                assert(tail[k - 1] == entries[k]);
                if rest.contains(k - 1) {
                    let i = choose|i: int| 0 <= i < rest.len() && rest[i] == k - 1;
                    assert(places[i + d] == k);
                }
                if places.contains(k) {
                    let i = choose|i: int| 0 <= i < places.len() && places[i] == k;
                    assert(i >= d);
                    assert(rest[i - d] == k - 1);
                    assert(rest.contains(k - 1));
                }
            }
        }
        places
    }
}

/// One leading underscore is taken away, and nothing else.
pub proof fn law_one_underscore_is_taken_away(name: Seq<char>)
    ensures
        text::without_underscore(seq!['_'] + name) == name,
        name.len() == 0 || name[0] != '_' ==> text::without_underscore(name) == name,
{
    assert((seq!['_'] + name).drop_first() =~= name);
}

/// A symbol map is required exactly if the name of some symbol starts with `__?hidden#`.
pub proof fn law_hidden_symbols_are_told_by_names(b: Seq<u8>)
    ensures
        image::has_hidden_symbols(b) <==> exists|i: int|
            0 <= i < image::symbols(b).len() && ((#[trigger] image::symbols(b)[i]).name matches
                Some(name) && name.len() >= 10 && name.take(10) == "__?hidden#"@),
{
    reveal_strlit("__?hidden#");
    let prefix = "__?hidden#"@;
    assert forall|name: Seq<char>| #[trigger]
        prefix.is_prefix_of(name) <==> name.len() >= 10 && name.take(10) == prefix by {
        if prefix.is_prefix_of(name) {
            assert(name.take(10) =~= prefix);
        }
        if name.len() >= 10 && name.take(10) == prefix {
            assert forall|k: int| 0 <= k < 10 implies prefix[k] == name[k] by {
                assert(name.take(10)[k] == name[k]);
            }
        }
    }
    if image::has_hidden_symbols(b) {
        let i = choose|i: int|
            0 <= i < image::symbols(b).len() && image::is_hidden(#[trigger] image::symbols(b)[i]);
        assert(prefix.is_prefix_of(image::symbols(b)[i].name->0));
    }
    if exists|i: int|
        0 <= i < image::symbols(b).len() && ((#[trigger] image::symbols(b)[i]).name matches Some(
            name,
        ) && name.len() >= 10 && name.take(10) == "__?hidden#"@) {
        let i = choose|i: int|
            0 <= i < image::symbols(b).len() && ((#[trigger] image::symbols(b)[i]).name matches
                Some(name) && name.len() >= 10 && name.take(10) == "__?hidden#"@);
        assert(prefix.is_prefix_of(image::symbols(b)[i].name->0));
        assert(image::is_hidden(image::symbols(b)[i]));
    }
}

// Symbol maps.
/// A symbol is its name, its address and its size.
pub proof fn law_models_have_all_of_a_symbol(symbols: Seq<Symbol>, i: int)
    requires
        0 <= i < symbols.len(),
    ensures
        symbol_map::models(symbols).len() == symbols.len(),
        symbol_map::models(symbols)[i] == symbols[i]@,
        symbols[i]@.address == symbols[i].address,
        symbols[i]@.size == symbols[i].size,
        symbols[i].name is None <==> symbols[i]@.name is None,
        symbols[i].name matches Some(name) ==> symbols[i]@.name == Some(name@),
{
}

/// The addresses in a symbol map increase.
pub proof fn law_map_is_ordered(
    symbols: Seq<image::SymbolModel>,
    map: Seq<image::SymbolModel>,
    j: int,
    k: int,
)
    requires
        symbol_map::is_map_of(symbols, map),
        0 <= j < k < map.len(),
    ensures
        map[j].address < map[k].address,
{
}

/// The address of each symbol is in the symbol map, once.
pub proof fn law_map_has_each_address(
    symbols: Seq<image::SymbolModel>,
    map: Seq<image::SymbolModel>,
    i: int,
) -> (j: int)
    requires
        symbol_map::is_map_of(symbols, map),
        0 <= i < symbols.len(),
    ensures
        0 <= j < map.len(),
        map[j].address == symbols[i].address,
        forall|k: int|
            0 <= k < map.len() && (#[trigger] map[k]).address == symbols[i].address ==> k == j,
{
    assert(symbol_map::has_address(map, symbols[i].address));
    let j = choose|j: int|
        0 <= j < map.len() && (#[trigger] map[j]).address == symbols[i].address;
    assert forall|k: int|
        0 <= k < map.len() && (#[trigger] map[k]).address == symbols[i].address implies k == j by {
        if k < j {
            assert(map[k].address < map[j].address);
        }
        if j < k {
            assert(map[j].address < map[k].address);
        }
    }
    j
}

/// Each symbol in a symbol map is the first of the symbols at its address. It has the size of that
/// symbol, or extends up to the next one if that size is not known.
pub proof fn law_map_holds_first_symbol_at_address(
    symbols: Seq<image::SymbolModel>,
    map: Seq<image::SymbolModel>,
    j: int,
) -> (i: int)
    requires
        symbol_map::is_map_of(symbols, map),
        0 <= j < map.len(),
    ensures
        0 <= i < symbols.len(),
        forall|k: int| 0 <= k < i ==> (#[trigger] symbols[k]).address != symbols[i].address,
        map[j].address == symbols[i].address,
        map[j].name == symbols[i].name,
        symbols[i].size != 0 ==> map[j].size == symbols[i].size,
        symbols[i].size == 0 && j + 1 < map.len() ==> map[j].size == map[j + 1].address
            - map[j].address,
        symbols[i].size == 0 && j + 1 == map.len() ==> map[j].size == 0,
{
    assert(symbol_map::has_source(symbols, map, j));
    choose|i: int| symbol_map::takes_symbol(symbols, map, i, j)
}

/// A debugging session starts from the symbol map and the load address of the object.
pub proof fn law_sessions_start_from_map_and_address(
    b: Seq<u8>,
    symbols: Seq<image::SymbolModel>,
    load_address: u64,
)
    ensures
        object::is_session_start(b, symbols, load_address) <==> symbol_map::is_map_of(
            image::symbols(b),
            symbols,
        ) && load_address == image::load_address(b),
{
}

} // verus!
