//! What holds of the library as a whole.
use crate::archive;
use crate::fat;
use crate::ident;
use crate::image;
use crate::layout;
use crate::object;
use crate::object::{MachError, MachObject};
use crate::reader;
use crate::symbol_map;
use vstd::prelude::*;

verus! {

/// No file passes both the test for objects and the test for fat containers.
pub proof fn law_signatures_are_disjoint(b: Seq<u8>)
    ensures
        !(object::has_object_signature(b) && fat::has_container_signature(b)),
{
}

/// Data from which an object can be read passes the test for objects and the test for archives, and
/// the archive of it is a single object.
pub proof fn law_objects_pass_the_tests(b: Seq<u8>, res: Result<MachObject, MachError>)
    requires
        object::is_parse_of(b, res),
        res is Ok,
    ensures
        object::has_object_signature(b),
        archive::has_archive_signature(b),
        archive::archive_slots(b) == seq![fat::ObjectSlot::Bytes(b)],
{
}

/// The object of an archive that is neither an object nor a fat container cannot be resolved.
pub proof fn law_other_files_give_errors(
    b: Seq<u8>,
    resolved: Result<Option<MachObject>, MachError>,
)
    requires
        !object::has_object_signature(b),
        !fat::has_container_signature(b),
        fat::is_extract_at(archive::archive_slots(b), 0, resolved),
    ensures
        resolved is Err,
{
}

/// A file that passes the test for fat containers is long enough to be read as one.
pub proof fn law_containers_can_be_read(b: Seq<u8>)
    requires
        fat::has_container_signature(b),
    ensures
        b.len() >= 8,
{
}

/// An archive that is not a fat container has one object: the file itself.
pub proof fn law_single_archive_has_one_object(b: Seq<u8>)
    requires
        !fat::has_container_signature(b),
    ensures
        archive::archive_slots(b).len() == 1,
        archive::archive_slots(b)[0] == fat::ObjectSlot::Bytes(b),
{
}

/// An archive that is a fat container has as many objects as the container announces.
pub proof fn law_container_has_announced_objects(b: Seq<u8>)
    requires
        fat::has_container_signature(b),
    ensures
        archive::archive_slots(b).len() == layout::fat_count(b),
        archive::archive_slots(b) == fat::fat_slots(b),
{
}

/// The `i`-th item of an iterator over objects and the object that is resolved by the index `i` are
/// the same: both fail with the same error, or both have the same contents.
pub proof fn law_objects_agree_with_index(
    slots: Seq<fat::ObjectSlot>,
    i: int,
    item: Result<MachObject, MachError>,
    resolved: Result<Option<MachObject>, MachError>,
)
    requires
        0 <= i < slots.len(),
        fat::is_extract_of(slots.skip(i)[0], item),
        fat::is_extract_at(slots, i, resolved),
    ensures
        item is Err <==> resolved is Err,
        item matches Ok(a) ==> resolved matches Ok(Some(b)) && a@ == b@,
        item matches Err(a) ==> resolved matches Err(b) && a == b,
{
}

/// Whether no object can be read in this place.
pub open spec fn is_unreadable(slot: fat::ObjectSlot) -> bool {
    slot matches fat::ObjectSlot::Bytes(data) ==> !reader::is_object(data)
}

/// An object that exists but cannot be parsed gives an error, by its index as well as from an
/// iterator, and the iterator goes on with the next object.
pub proof fn law_unreadable_objects_give_errors(
    slots: Seq<fat::ObjectSlot>,
    i: int,
    item: Result<MachObject, MachError>,
    resolved: Result<Option<MachObject>, MachError>,
)
    requires
        0 <= i < slots.len(),
        is_unreadable(slots[i]),
        fat::is_extract_of(slots.skip(i)[0], item),
        fat::is_extract_at(slots, i, resolved),
    ensures
        item is Err,
        resolved is Err,
        item == Err::<MachObject, MachError>(resolved->Err_0),
        i + 1 < slots.len() ==> slots.skip(i).drop_first()[0] == slots[i + 1],
{
}

/// An iterator over objects visits each of them once and in order: after `i` objects the next one
/// is the `i`-th, and after all of them there is none.
pub proof fn law_iteration_visits_each_object(slots: Seq<fat::ObjectSlot>, i: int)
    requires
        0 <= i < slots.len(),
    ensures
        slots.skip(0) == slots,
        slots.skip(i)[0] == slots[i],
        slots.skip(i).drop_first() == slots.skip(i + 1),
        slots.skip(i).len() == slots.len() - i,
        slots.skip(slots.len() as int).len() == 0,
{
}

/// Resolving an object gives nothing if and only if the index is out of bounds.
pub proof fn law_nothing_beyond_last_object(
    slots: Seq<fat::ObjectSlot>,
    i: int,
    resolved: Result<Option<MachObject>, MachError>,
)
    requires
        0 <= i,
        fat::is_extract_at(slots, i, resolved),
    ensures
        resolved matches Ok(None) <==> i >= slots.len(),
{
}

/// The bytes of an object in a fat container are a part of the container.
pub proof fn law_objects_are_parts_of_container(b: Seq<u8>, i: int)
    requires
        0 <= i < fat::fat_slots(b).len(),
        fat::fat_slots(b)[i] is Bytes,
    ensures
        layout::fat_arch_at(b, i) matches Some(arch) && {
            let from = fat::at_most(arch.offset, b.len() as int);
            let to = fat::at_most(arch.offset + arch.size, b.len() as int);
            &&& 0 <= from <= to <= b.len()
            &&& fat::fat_slots(b)[i] == fat::ObjectSlot::Bytes(b.subrange(from, to))
        },
{
}

/// An object that lies in a fat container as a whole is found with its length.
pub proof fn law_whole_objects_are_found(b: Seq<u8>, i: int)
    requires
        0 <= i < fat::fat_slots(b).len(),
        layout::fat_arch_at(b, i) matches Some(arch) && arch.offset + arch.size <= b.len()
            && arch.offset + arch.size <= u32::MAX,
    ensures
        layout::fat_arch_at(b, i) matches Some(arch) && fat::fat_slots(b)[i]
            == fat::ObjectSlot::Bytes(b.subrange(arch.offset, arch.offset + arch.size)),
{
}

/// The code identifier and the debug identifier of an object use the same bytes, of which there are
/// sixteen. An object without identifier has no code identifier.
pub proof fn law_identifiers_agree(b: Seq<u8>)
    requires
        layout::has_all_commands(b),
    ensures
        image::debug_uuid(b).len() == 16,
        image::code_id(b) matches Some(id) ==> id == ident::hex(image::debug_uuid(b)) && id.len()
            == 32,
        image::code_id(b) is None ==> forall|i: int|
            0 <= i < 16 ==> #[trigger] image::debug_uuid(b)[i] == 0,
{
    layout::lemma_first_index(layout::uuid_command(b), 0, layout::command_count(b));
    if let Some(i) = layout::first_index(layout::uuid_command(b), 0, layout::command_count(b)) {
        assert(layout::has_command(b, i));
        lemma_command_offset(b, i);
    }
}

/// Load commands lie behind the start of the file.
proof fn lemma_command_offset(b: Seq<u8>, i: int)
    ensures
        layout::command_offset(b, i) >= 0,
    decreases i,
{
    if i > 0 {
        lemma_command_offset(b, i - 1);
    }
}

/// Different identifiers have different hexadecimal forms.
pub proof fn law_hex_is_unique(a: Seq<u8>, b: Seq<u8>)
    requires
        ident::hex(a) == ident::hex(b),
    ensures
        a == b,
{
    assert(ident::hex(a).len() == 2 * a.len());
    assert forall|i: int| 0 <= i < a.len() implies a[i] == b[i] by {
        let even = 2 * i;
        let odd = 2 * i + 1;
        assert(ident::hex(a)[even] == ident::hex_digit(a[i] as int / 16));
        assert(ident::hex(a)[odd] == ident::hex_digit(a[i] as int % 16));
        lemma_hex_digit(a[i] as int / 16, b[i] as int / 16);
        lemma_hex_digit(a[i] as int % 16, b[i] as int % 16);
    }
}

/// Different numbers have different digits.
proof fn lemma_hex_digit(m: int, n: int)
    requires
        0 <= m < 16,
        0 <= n < 16,
        ident::hex_digit(m) == ident::hex_digit(n),
    ensures
        m == n,
{
}

/// Whether the `k`-th symbol table entry stands for a function, and the `i`-th symbol comes of it.
pub open spec fn comes_of_entry(b: Seq<u8>, i: int, k: int) -> bool {
    &&& 0 <= k < layout::symbol_entries(b).len()
    &&& layout::symbol_entries(b)[k] matches Some(entry) && {
        &&& image::is_function(entry, image::code_sections(b), image::load_address(b))
        &&& image::symbols(b)[i].address + image::load_address(b) == entry.n_value
        &&& image::symbols(b)[i] == image::function_symbol(entry, image::load_address(b))
    }
}

/// Symbols are rebased: each comes of a symbol table entry that stands for a function, and its
/// address is that of the entry relative to the load address, before which it does not lie.
pub proof fn law_symbols_are_rebased(b: Seq<u8>, i: int)
    requires
        0 <= i < image::symbols(b).len(),
    ensures
        image::symbols(b)[i].address >= 0,
        exists|k: int| comes_of_entry(b, i, k),
{
    let code = image::code_sections(b);
    let base = image::load_address(b);
    let k = lemma_symbol_has_entry(layout::symbol_entries(b), code, base, i);
    assert(comes_of_entry(b, i, k));
}

/// Each symbol comes of an entry.
proof fn lemma_symbol_has_entry(
    entries: Seq<Option<layout::SymbolLayout>>,
    code: Set<int>,
    base: int,
    i: int,
) -> (k: int)
    requires
        0 <= i < image::function_symbols(entries, code, base).len(),
    ensures
        0 <= k < entries.len(),
        entries[k] matches Some(entry) && image::is_function(entry, code, base)
            && image::function_symbols(entries, code, base)[i] == image::function_symbol(
            entry,
            base,
        ),
    decreases entries.len(),
{
    let first = match entries[0] {
        Some(entry) => image::is_function(entry, code, base),
        None => false,
    };
    if first && i == 0 {
        0
    } else if first {
        lemma_symbol_has_entry(entries.drop_first(), code, base, i - 1) + 1
    } else {
        lemma_symbol_has_entry(entries.drop_first(), code, base, i) + 1
    }
}

/// Symbols come in the order of the symbol table entries that they come of.
pub proof fn law_symbols_keep_table_order(b: Seq<u8>, i: int, j: int)
    requires
        0 <= i < j < image::symbols(b).len(),
    ensures
        exists|k: int, l: int| k < l && comes_of_entry(b, i, k) && comes_of_entry(b, j, l),
{
    let code = image::code_sections(b);
    let base = image::load_address(b);
    let (k, l) = lemma_symbols_have_entries(layout::symbol_entries(b), code, base, i, j);
    assert(comes_of_entry(b, i, k));
    assert(comes_of_entry(b, j, l));
}

/// Two symbols come of entries in the same order.
proof fn lemma_symbols_have_entries(
    entries: Seq<Option<layout::SymbolLayout>>,
    code: Set<int>,
    base: int,
    i: int,
    j: int,
) -> (res: (int, int))
    requires
        0 <= i < j < image::function_symbols(entries, code, base).len(),
    ensures
        0 <= res.0 < res.1 < entries.len(),
        entries[res.0] matches Some(entry) && image::is_function(entry, code, base)
            && image::function_symbols(entries, code, base)[i] == image::function_symbol(
            entry,
            base,
        ),
        entries[res.1] matches Some(entry) && image::is_function(entry, code, base)
            && image::function_symbols(entries, code, base)[j] == image::function_symbol(
            entry,
            base,
        ),
    decreases entries.len(),
{
    let first = match entries[0] {
        Some(entry) => image::is_function(entry, code, base),
        None => false,
    };
    if first && i == 0 {
        (0, lemma_symbol_has_entry(entries.drop_first(), code, base, j - 1) + 1)
    } else if first {
        let (k, l) = lemma_symbols_have_entries(entries.drop_first(), code, base, i - 1, j - 1);
        (k + 1, l + 1)
    } else {
        let (k, l) = lemma_symbols_have_entries(entries.drop_first(), code, base, i, j);
        (k + 1, l + 1)
    }
}

/// No function is left out: each symbol table entry that stands for one gives a symbol.
pub proof fn law_functions_have_symbols(b: Seq<u8>, k: int)
    requires
        0 <= k < layout::symbol_entries(b).len(),
        layout::symbol_entries(b)[k] matches Some(entry) && image::is_function(
            entry,
            image::code_sections(b),
            image::load_address(b),
        ),
    ensures
        exists|i: int| 0 <= i < image::symbols(b).len() && comes_of_entry(b, i, k),
{
    let code = image::code_sections(b);
    let base = image::load_address(b);
    let i = lemma_entry_has_symbol(layout::symbol_entries(b), code, base, k);
    assert(comes_of_entry(b, i, k));
}

/// Each entry that stands for a function gives a symbol.
proof fn lemma_entry_has_symbol(
    entries: Seq<Option<layout::SymbolLayout>>,
    code: Set<int>,
    base: int,
    k: int,
) -> (i: int)
    requires
        0 <= k < entries.len(),
        entries[k] matches Some(entry) && image::is_function(entry, code, base),
    ensures
        0 <= i < image::function_symbols(entries, code, base).len(),
        entries[k] matches Some(entry) && image::function_symbols(entries, code, base)[i]
            == image::function_symbol(entry, base),
    decreases entries.len(),
{
    let first = match entries[0] {
        Some(entry) => image::is_function(entry, code, base),
        None => false,
    };
    if k == 0 {
        0
    } else {
        let i = lemma_entry_has_symbol(entries.drop_first(), code, base, k - 1);
        if first {
            i + 1
        } else {
            i
        }
    }
}

/// An object without a symbol table has no symbols, and none of them are hidden.
pub proof fn law_no_symbols_without_table(b: Seq<u8>)
    requires
        layout::symtab(b) is None,
    ensures
        image::symbols(b).len() == 0,
        !image::has_hidden_symbols(b),
{
}

/// An object without sections of code has no symbols.
pub proof fn law_no_symbols_without_code(b: Seq<u8>)
    requires
        forall|i: int|
            0 <= i < layout::sections(b).len() ==> !image::is_code(
                #[trigger] layout::sections(b)[i],
            ),
    ensures
        image::symbols(b).len() == 0,
{
    if image::symbols(b).len() > 0 {
        law_symbols_are_rebased(b, 0);
    }
}

/// There is one symbol map of given symbols.
pub proof fn law_symbol_map_is_unique(
    symbols: Seq<image::SymbolModel>,
    a: Seq<image::SymbolModel>,
    b: Seq<image::SymbolModel>,
)
    requires
        symbol_map::is_map_of(symbols, a),
        symbol_map::is_map_of(symbols, b),
    ensures
        a == b,
{
    lemma_same_addresses(symbols, a, b, a.len() as int);
    lemma_same_addresses(symbols, b, a, b.len() as int);
    assert forall|j: int| 0 <= j < a.len() implies a[j] == b[j] by {
        assert(symbol_map::has_source(symbols, a, j));
        assert(symbol_map::has_source(symbols, b, j));
        let i = choose|i: int| symbol_map::takes_symbol(symbols, a, i, j);
        let k = choose|k: int| symbol_map::takes_symbol(symbols, b, k, j);
        assert(i == k);
    }
}

/// The first `n` addresses of a symbol map are those of any other one.
proof fn lemma_same_addresses(
    symbols: Seq<image::SymbolModel>,
    a: Seq<image::SymbolModel>,
    b: Seq<image::SymbolModel>,
    n: int,
)
    requires
        symbol_map::is_map_of(symbols, a),
        symbol_map::is_map_of(symbols, b),
        0 <= n <= a.len(),
    ensures
        n <= b.len(),
        forall|j: int| 0 <= j < n ==> (#[trigger] a[j]).address == b[j].address,
    decreases n,
{
    if n > 0 {
        lemma_same_addresses(symbols, a, b, n - 1);
        let p = lemma_address_in_other_map(symbols, a, b, n - 1);
        assert(p >= n - 1) by {
            if p < n - 1 {
                assert(a[p].address == b[p].address);
            }
        }
        let q = lemma_address_in_other_map(symbols, b, a, n - 1);
        assert(q >= n - 1);
        assert(a[n - 1].address == b[n - 1].address);
    }
}

/// An address of one symbol map occurs in any other one.
proof fn lemma_address_in_other_map(
    symbols: Seq<image::SymbolModel>,
    a: Seq<image::SymbolModel>,
    b: Seq<image::SymbolModel>,
    j: int,
) -> (k: int)
    requires
        symbol_map::is_map_of(symbols, a),
        symbol_map::is_map_of(symbols, b),
        0 <= j < a.len(),
    ensures
        0 <= k < b.len(),
        b[k].address == a[j].address,
{
    assert(symbol_map::has_source(symbols, a, j));
    let i = choose|i: int| symbol_map::takes_symbol(symbols, a, i, j);
    choose|k: int| 0 <= k < b.len() && (#[trigger] b[k]).address == symbols[i].address
}

/// In the symbol map of an image, each symbol extends exactly up to the next one, and the last one
/// has no size.
pub proof fn law_symbols_fill_the_map(b: Seq<u8>, map: Seq<image::SymbolModel>, j: int)
    requires
        symbol_map::is_map_of(image::symbols(b), map),
        0 <= j < map.len(),
    ensures
        map[j].address >= 0,
        j + 1 < map.len() ==> map[j].size > 0 && map[j].address + map[j].size == map[j + 1].address,
        j + 1 == map.len() ==> map[j].size == 0,
{
    assert(symbol_map::has_source(image::symbols(b), map, j));
    let i = choose|i: int| symbol_map::takes_symbol(image::symbols(b), map, i, j);
    law_symbols_are_rebased(b, i);
}

/// The contents of a section that is found are those at its place in the file, which is not the
/// start of the file.
pub proof fn law_section_contents_are_in_file(b: Seq<u8>, name: Seq<char>)
    requires
        image::raw_section(b, name) is Some,
    ensures
        image::raw_section(b, name) matches Some(section) && section.offset > 0 && (
        section.data.len() > 0 ==> section.offset + section.data.len() <= b.len() && section.data
            == b.subrange(section.offset, section.offset + section.data.len())),
{
    let n = layout::sections(b).len() as int;
    layout::lemma_first_index(image::named_section(b, name), 0, n);
    let i = image::find_section(b, name)->0;
    lemma_section_contents(b, layout::segments(b).len() as int, i);
}

/// The contents of sections are those at their places in the file.
proof fn lemma_section_contents(b: Seq<u8>, n: int, i: int)
    requires
        0 <= n <= layout::segments(b).len(),
        0 <= i < layout::sections_until(b, n).len(),
    ensures
        layout::sections_until(b, n)[i].section matches Some(section) ==> section.offset >= 0 && (
        section.data.len() > 0 ==> section.offset + section.data.len() <= b.len() && section.data
            == b.subrange(section.offset, section.offset + section.data.len())),
    decreases n,
{
    layout::lemma_segments(b, layout::command_count(b));
    let before = layout::sections_until(b, n - 1).len();
    if i < before {
        lemma_section_contents(b, n - 1, i);
    } else {
        let segment = layout::segments(b)[n - 1];
    }
}

} // verus!
