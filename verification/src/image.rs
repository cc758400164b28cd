//! What an image says of its addresses, its code and its symbols, stated over the bytes of its
//! file.
use crate::ident;
use crate::layout;
use crate::text;
use vstd::prelude::*;

verus! {

/// The code identifier: the identifier of the image in hexadecimal form.
pub open spec fn code_id(b: Seq<u8>) -> Option<Seq<char>> {
    match layout::image_uuid(b) {
        Some(uuid) => Some(ident::hex(uuid)),
        None => None,
    }
}

/// The bytes of the debug identifier: the identifier of the image, or zeros if it has none.
pub open spec fn debug_uuid(b: Seq<u8>) -> Seq<u8> {
    match layout::image_uuid(b) {
        Some(uuid) => uuid,
        None => Seq::new(16, |i: int| 0u8),
    }
}

/// The property of being a segment with program text.
pub open spec fn text_segment(b: Seq<u8>) -> spec_fn(int) -> bool {
    |i: int| layout::segments(b)[i].name == Some("__TEXT"@)
}

/// The address at which the image prefers to be loaded: that of the first segment with program
/// text, or zero if there is none.
pub open spec fn load_address(b: Seq<u8>) -> int {
    match layout::first_index(text_segment(b), 0, layout::segments(b).len() as int) {
        Some(i) => layout::segments(b)[i].vmaddr,
        None => 0,
    }
}

/// Whether a section is listed by a segment with program text.
pub open spec fn is_text(section: layout::PlacedSection) -> bool {
    section.segment == Some("__TEXT"@)
}

/// Whether a section holds code.
pub open spec fn is_code(section: layout::PlacedSection) -> bool {
    &&& is_text(section)
    &&& section.section matches Some(s) && (s.name == Some("__text"@) || s.name == Some(
        "__stubs"@,
    ))
}

/// Whether a section in a segment with program text is missing.
pub open spec fn is_broken(section: layout::PlacedSection) -> bool {
    is_text(section) && section.section is None
}

/// Whether the section with this number holds code. Nothing is known of the sections behind a
/// broken one.
pub open spec fn is_code_section(sections: Seq<layout::PlacedSection>, n: int) -> bool {
    &&& 0 <= n < sections.len()
    &&& is_code(sections[n])
    &&& forall|m: int| 0 <= m < n ==> !is_broken(#[trigger] sections[m])
}

/// The numbers of the sections with code.
pub open spec fn code_sections(b: Seq<u8>) -> Set<int> {
    Set::new(|n: int| is_code_section(layout::sections(b), n))
}

/// Whether a section name is the given one. The two underscores that section names start with are
/// left out of account, as are any other two bytes in their place.
pub open spec fn name_matches(name: Option<Seq<char>>, wanted: Seq<char>) -> bool {
    &&& name matches Some(n)
    &&& vstd::utf8::encode_utf8(n).len() >= 2
    &&& vstd::utf8::encode_utf8(n).skip(2) == vstd::utf8::encode_utf8(wanted)
}

/// Whether a character of the section name ends with its second byte, if there are as many.
pub open spec fn name_splits(name: Option<Seq<char>>) -> bool {
    name matches Some(n) ==> vstd::utf8::encode_utf8(n).len() < 2 || vstd::utf8::is_char_boundary(
        vstd::utf8::encode_utf8(n),
        2,
    )
}

/// Whether the section has this name.
pub open spec fn has_name(section: layout::PlacedSection, wanted: Seq<char>) -> bool {
    section.section matches Some(s) && name_matches(s.name, wanted)
}

/// Whether the section, if it is not missing, has a name that can be split.
pub open spec fn is_splittable(section: layout::PlacedSection) -> bool {
    section.section matches Some(s) ==> name_splits(s.name)
}

/// The property of being a section with this name.
pub open spec fn named_section(b: Seq<u8>, name: Seq<char>) -> spec_fn(int) -> bool {
    |i: int| has_name(layout::sections(b)[i], name)
}

/// The number of the first section with this name.
pub open spec fn find_section(b: Seq<u8>, name: Seq<char>) -> Option<int> {
    layout::first_index(named_section(b, name), 0, layout::sections(b).len() as int)
}

/// Whether the sections before the first one with this name, or all if there is none, have names
/// that can be split.
pub open spec fn can_find_section(b: Seq<u8>, name: Seq<char>) -> bool {
    forall|i: int|
        0 <= i < layout::sections(b).len() && (find_section(b, name) matches Some(k) ==> i < k)
            ==> is_splittable(#[trigger] layout::sections(b)[i])
}

/// Whether the first `n` sections have other names, which can be split.
pub open spec fn passes(b: Seq<u8>, name: Seq<char>, n: int) -> bool {
    forall|m: int|
        0 <= m < n ==> !has_name(#[trigger] layout::sections(b)[m], name) && is_splittable(
            layout::sections(b)[m],
        )
}

/// The search ends at a section with the name.
pub(crate) proof fn lemma_found(b: Seq<u8>, name: Seq<char>, n: int)
    requires
        0 <= n < layout::sections(b).len(),
        passes(b, name, n),
        has_name(layout::sections(b)[n], name),
    ensures
        find_section(b, name) == Some(n),
        can_find_section(b, name),
{
    let named = named_section(b, name);
    layout::lemma_first_index(named, 0, layout::sections(b).len() as int);
    assert(named(n));
}

/// The search fails at a section with a name that cannot be split.
pub(crate) proof fn lemma_unsplittable(b: Seq<u8>, name: Seq<char>, n: int)
    requires
        0 <= n < layout::sections(b).len(),
        passes(b, name, n),
        !has_name(layout::sections(b)[n], name),
        !is_splittable(layout::sections(b)[n]),
    ensures
        !can_find_section(b, name),
{
    let named = named_section(b, name);
    layout::lemma_first_index(named, 0, layout::sections(b).len() as int);
}

/// The search finds nothing where no section has the name.
pub(crate) proof fn lemma_missing(b: Seq<u8>, name: Seq<char>)
    requires
        passes(b, name, layout::sections(b).len() as int),
    ensures
        find_section(b, name) is None,
        can_find_section(b, name),
{
    let named = named_section(b, name);
    layout::lemma_first_index(named, 0, layout::sections(b).len() as int);
}

/// The first section with this name, if the file holds its contents. A section header may remain
/// though the contents have been removed from the file. The offset is zero in that case.
pub open spec fn raw_section(b: Seq<u8>, name: Seq<char>) -> Option<layout::SectionLayout> {
    match find_section(b, name) {
        Some(i) => match layout::sections(b)[i].section {
            Some(s) if s.offset != 0 => Some(s),
            _ => None,
        },
        None => None,
    }
}

/// A symbol, as a value.
pub struct SymbolModel {
    /// The name.
    pub name: Option<Seq<char>>,
    /// The address, counted from the start of the image.
    pub address: int,
    /// The size, or zero if it is not known.
    pub size: int,
}

/// Whether a symbol table entry stands for a function: it is no entry for debuggers, and it points
/// into a section with code, behind the start of the image.
pub open spec fn is_function(entry: layout::SymbolLayout, code: Set<int>, base: int) -> bool {
    &&& entry.n_value >= base
    &&& entry.n_type & 0xe0 == 0
    &&& entry.n_type & 0x0e == 0x0e
    &&& entry.n_sect != 0
    &&& code.contains(entry.n_sect - 1)
}

/// The symbol for a symbol table entry that stands for a function.
pub open spec fn function_symbol(entry: layout::SymbolLayout, base: int) -> SymbolModel {
    SymbolModel {
        name: Some(text::without_underscore(entry.name)),
        address: entry.n_value - base,
        size: 0,
    }
}

/// The symbols for those of the entries that stand for functions, in their order.
pub open spec fn function_symbols(
    entries: Seq<Option<layout::SymbolLayout>>,
    code: Set<int>,
    base: int,
) -> Seq<SymbolModel>
    decreases entries.len(),
{
    if entries.len() == 0 {
        Seq::empty()
    } else {
        let rest = function_symbols(entries.drop_first(), code, base);
        match entries[0] {
            Some(entry) if is_function(entry, code, base) => seq![function_symbol(entry, base)]
                + rest,
            _ => rest,
        }
    }
}

/// The symbols of the image.
pub open spec fn symbols(b: Seq<u8>) -> Seq<SymbolModel> {
    function_symbols(layout::symbol_entries(b), code_sections(b), load_address(b))
}

/// Whether the name of a symbol has been hidden.
pub open spec fn is_hidden(symbol: SymbolModel) -> bool {
    symbol.name matches Some(name) && "__?hidden#"@.is_prefix_of(name)
}

/// Whether the name of any symbol of the image has been hidden.
pub open spec fn has_hidden_symbols(b: Seq<u8>) -> bool {
    exists|i: int| 0 <= i < symbols(b).len() && is_hidden(#[trigger] symbols(b)[i])
}

} // verus!
