//! The symbols of an object.
use crate::image;
use crate::indices::SectionIndices;
use crate::reader;
use crate::reader::SymbolEntry;
use crate::text;
use goblin::mach::symbols::SymbolIterator;
use vstd::prelude::*;

verus! {

/// The kind of a symbol that is defined in a section.
pub const N_SECT: u8 = 0x0e;

/// A symbol from a symbol table.
#[derive(Clone, Copy, Debug, PartialEq, Eq)]
pub struct Symbol<'d> {
    /// The name of the symbol, if it has one.
    pub name: Option<&'d str>,
    /// The address of the symbol, counted from the start of the image.
    pub address: u64,
    /// The size of the symbol, or zero if it is not known.
    pub size: u64,
}

impl<'d> View for Symbol<'d> {
    type V = image::SymbolModel;

    open spec fn view(&self) -> image::SymbolModel {
        image::SymbolModel {
            name: match self.name {
                Some(name) => Some(name@),
                None => None,
            },
            address: self.address as int,
            size: self.size as int,
        }
    }
}

impl<'d> Symbol<'d> {
    /// The name of the symbol, if it has one.
    pub fn name(&self) -> (res: Option<&'d str>)
        ensures
            res == self.name,
    {
        self.name
    }
}

/// The symbol for a symbol table entry, if it stands for a function in one of the `code` sections
/// of an image that is loaded at `vmaddr`.
pub fn symbol_of_entry<'d>(entry: SymbolEntry<'d>, code: &SectionIndices, vmaddr: u64) -> (res:
    Option<Symbol<'d>>)
    ensures
        res is Some <==> {
            &&& entry.value >= vmaddr
            &&& !entry.stab
            &&& entry.kind == N_SECT
            &&& entry.section != 0
            &&& code@.contains(entry.section - 1)
        },
        res matches Some(symbol) ==> {
            &&& symbol.name matches Some(name) && name@ == text::without_underscore(entry.name@)
            &&& symbol.address == entry.value - vmaddr
            &&& symbol.size == 0
        },
{
    // A function has to be mapped behind the start of the image.
    if entry.value < vmaddr {
        return None;
    }
    // Section numbers are counted from one to leave room for symbols without a section.
    let in_valid_section = !entry.stab && entry.kind == N_SECT && entry.section != 0
        && code.contains((entry.section - 1) as u64);
    if !in_valid_section {
        return None;
    }
    Some(
        Symbol {
            name: Some(text::trim_underscore(entry.name)),
            address: entry.value - vmaddr,
            // A symbol map computes the sizes.
            size: 0,
        },
    )
}

/// An iterator over symbols in the MachO file.
///
/// Returned by [`MachObject::symbols`](crate::object::MachObject::symbols).
pub struct MachOSymbolIterator<'d> {
    symbols: SymbolIterator<'d>,
    sections: SectionIndices,
    vmaddr: u64,
}

impl<'d> View for MachOSymbolIterator<'d> {
    type V = Seq<image::SymbolModel>;

    /// The symbols that have yet to come.
    closed spec fn view(&self) -> Seq<image::SymbolModel> {
        image::function_symbols(
            reader::symbols_left(self.symbols),
            self.sections@,
            self.vmaddr as int,
        )
    }
}

impl<'d> MachOSymbolIterator<'d> {
    /// An iterator over those of the entries that stand for functions.
    pub(crate) fn new(symbols: SymbolIterator<'d>, sections: SectionIndices, vmaddr: u64) -> (res:
        Self)
        ensures
            res@ == image::function_symbols(
                reader::symbols_left(symbols),
                sections@,
                vmaddr as int,
            ),
    {
        MachOSymbolIterator { symbols, sections, vmaddr }
    }

    /// The next symbol, if there is one.
    pub fn next(&mut self) -> (res: Option<Symbol<'d>>)
        ensures
            res is None <==> old(self)@.len() == 0,
            res matches Some(symbol) ==> {
                &&& symbol@ == old(self)@[0]
                &&& final(self)@ == old(self)@.drop_first()
            },
            res is None ==> final(self)@.len() == 0,
    {
        loop
            invariant
                self@ == old(self)@,
                self.sections == old(self).sections,
                self.vmaddr == old(self).vmaddr,
            decreases reader::symbols_left(self.symbols).len(),
        {
            let item = match reader::next_symbol(&mut self.symbols) {
                Some(item) => item,
                None => return None,
            };
            // Gracefully recover from corrupt entries.
            let entry = match item {
                Ok(entry) => entry,
                Err(_) => continue ,
            };
            if let Some(symbol) = symbol_of_entry(entry, &self.sections, self.vmaddr) {
                return Some(symbol);
            }
        }
    }
}

} // verus!
