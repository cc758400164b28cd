//! The address of the entry point that the load commands of an executable give.
//!
//! Reading an object computes this address, though nothing in this crate asks for it. The
//! computation must stay within 64 bits.
use crate::layout;
use vstd::prelude::*;

verus! {

/// The property of being a command that locates the entry point.
pub open spec fn main_command(b: Seq<u8>) -> spec_fn(int) -> bool {
    |i: int| layout::command_kind(b, i) == layout::LC_MAIN
}

/// Whether the name of a segment, at `off`, is `__TEXT` with the zero byte that ends it.
pub open spec fn has_text_name(b: Seq<u8>, off: int) -> bool {
    &&& b[off] == 0x5f
    &&& b[off + 1] == 0x5f
    &&& b[off + 2] == 0x54
    &&& b[off + 3] == 0x45
    &&& b[off + 4] == 0x58
    &&& b[off + 5] == 0x54
    &&& b[off + 6] == 0
}

/// The property of being a command that declares the text segment.
pub open spec fn text_command(b: Seq<u8>) -> spec_fn(int) -> bool {
    |i: int|
        layout::is_segment_command(b, i) && has_text_name(b, layout::command_offset(b, i) + 8)
}

/// Whether a text segment is declared, to which the entry point belongs, if the load commands give
/// one.
pub open spec fn has_text_for_main(b: Seq<u8>) -> bool {
    let n = layout::command_count(b);
    layout::first_index(main_command(b), 0, n) is Some ==> layout::first_index(
        text_command(b),
        0,
        n,
    ) is Some
}

/// The address to which the start of the file is mapped, given the command of the text segment.
pub open spec fn file_base(b: Seq<u8>, i: int) -> int {
    let off = layout::command_offset(b, i);
    if layout::command_kind(b, i) == layout::LC_SEGMENT_64 {
        layout::u64_at(b, off + 24) - layout::u64_at(b, off + 40)
    } else {
        layout::u32_at(b, off + 24) - layout::u32_at(b, off + 32)
    }
}

/// The distance of the entry point from the start of the file, given the command that locates it.
pub open spec fn entry_offset(b: Seq<u8>, i: int) -> int {
    layout::u64_at(b, layout::command_offset(b, i) + 8)
}

/// Whether the address of the entry point, if the load commands give one, has 64 bits.
pub open spec fn entry_fits(b: Seq<u8>) -> bool {
    let n = layout::command_count(b);
    layout::has_all_commands(b) ==> match (
        layout::first_index(main_command(b), 0, n),
        layout::first_index(text_command(b), 0, n),
    ) {
        (Some(main), Some(text)) => 0 <= file_base(b, text) && file_base(b, text) + entry_offset(
            b,
            main,
        ) <= u64::MAX,
        _ => true,
    }
}

/// Reads the 32-bit number at `off` in the byte order that `little` gives.
fn read_u32(data: &[u8], off: usize, little: bool) -> (res: u32)
    requires
        off + 4 <= data.len(),
    ensures
        res == if little {
            layout::le32_at(data@, off as int)
        } else {
            layout::be32_at(data@, off as int)
        },
{
    let a: u32 = data[off] as u32;
    let b: u32 = data[off + 1] as u32;
    let c: u32 = data[off + 2] as u32;
    let d: u32 = data[off + 3] as u32;
    if little {
        a + b * 0x100 + c * 0x1_0000 + d * 0x100_0000
    } else {
        a * 0x100_0000 + b * 0x1_0000 + c * 0x100 + d
    }
}

/// Reads the 64-bit number at `off` in the byte order of the file.
fn read_u64(data: &[u8], off: usize, little: bool) -> (res: u64)
    requires
        off + 8 <= data.len(),
        little == layout::is_little_endian(data@),
    ensures
        res == layout::u64_at(data@, off as int),
{
    let first: u64 = read_u32(data, off, little) as u64;
    let second: u64 = read_u32(data, off + 4, little) as u64;
    if little {
        first + second * 0x1_0000_0000
    } else {
        first * 0x1_0000_0000 + second
    }
}

/// Tells whether the name at `off` is `__TEXT` with the zero byte that ends it.
fn is_text_name(data: &[u8], off: usize) -> (res: bool)
    requires
        off + 7 <= data.len(),
    ensures
        res == has_text_name(data@, off as int),
{
    data[off] == 0x5f && data[off + 1] == 0x5f && data[off + 2] == 0x54 && data[off + 3] == 0x45
        && data[off + 4] == 0x58 && data[off + 5] == 0x54 && data[off + 6] == 0
}

/// Tells whether the file holds `size` bytes at `offset`.
fn holds_bytes(data: &[u8], offset: u64, size: u64) -> (res: bool)
    ensures
        res == layout::holds(data@, offset as int, size as int),
{
    let len: u64 = data.len() as u64;
    size == 0 || (offset <= len && size <= len - offset)
}

/// Tells whether the file holds the load command at `off`.
fn holds_command(data: &[u8], off: usize, little: bool) -> (res: bool)
    requires
        off <= data.len(),
        little == layout::is_little_endian(data@),
    ensures
        res == layout::has_command_at(data@, off as int),
{
    let left: usize = data.len() - off;
    if left < 8 {
        return false;
    }
    let kind: u32 = read_u32(data, off, little);
    let size: u32 = read_u32(data, off + 4, little);
    if size as usize > left {
        return false;
    }
    match kind {
        layout::LC_SEGMENT => left >= 56 && {
            let fileoff: u64 = read_u32(data, off + 32, little) as u64;
            let filesize: u64 = read_u32(data, off + 36, little) as u64;
            holds_bytes(data, fileoff, filesize)
        },
        layout::LC_SEGMENT_64 => left >= 72 && {
            let fileoff: u64 = read_u64(data, off + 40, little);
            let filesize: u64 = read_u64(data, off + 48, little);
            holds_bytes(data, fileoff, filesize)
        },
        layout::LC_SYMTAB => left >= 24 && {
            let symoff: u32 = read_u32(data, off + 8, little);
            let stroff: u32 = read_u32(data, off + 16, little);
            symoff as usize <= data.len() && symoff <= stroff
        },
        layout::LC_UUID | layout::LC_MAIN => left >= 24,
        _ => true,
    }
}

/// Tells whether the address of the entry point, if the load commands give one, has 64 bits.
///
/// The files for which this is false cannot be read.
pub fn entry_point_fits(data: &[u8]) -> (res: bool)
    ensures
        res == entry_fits(data@),
{
    let ghost b = data@;
    if data.len() < 32 {
        return true;
    }
    let magic: u32 = read_u32(data, 0, false);
    if magic != layout::MH_MAGIC && magic != layout::MH_CIGAM && magic != layout::MH_MAGIC_64
        && magic != layout::MH_CIGAM_64 {
        return true;
    }
    let little = magic == layout::MH_CIGAM || magic == layout::MH_CIGAM_64;
    let wide = magic == layout::MH_MAGIC_64 || magic == layout::MH_CIGAM_64;
    let count: u32 = read_u32(data, 16, little);
    let size: u32 = read_u32(data, 20, little);
    if count > size / 8 || size as usize > data.len() {
        return true;
    }
    let mut off: usize = if wide {
        32
    } else {
        28
    };
    let mut main: Option<u64> = None;
    let mut text: Option<(u64, u64)> = None;
    let ghost mut main_at: int = 0;
    let ghost mut text_at: int = 0;
    let mut i: u32 = 0;
    while i < count
        invariant
            i <= count,
            b == data@,
            b.len() == data.len(),
            count == layout::command_count(b),
            little == layout::is_little_endian(b),
            off == layout::command_offset(b, i as int),
            off <= b.len(),
            layout::has_header(b),
            layout::has_room_for_commands(b),
            forall|k: int| 0 <= k < i ==> #[trigger] layout::has_command(b, k),
            match main {
                Some(entry) => {
                    &&& layout::first_index(main_command(b), 0, count as int) == Some(main_at)
                    &&& entry == entry_offset(b, main_at)
                },
                None => layout::first_index(main_command(b), 0, count as int)
                    == layout::first_index(main_command(b), i as int, count as int),
            },
            match text {
                Some((vmaddr, fileoff)) => {
                    &&& layout::first_index(text_command(b), 0, count as int) == Some(text_at)
                    &&& vmaddr - fileoff == file_base(b, text_at)
                },
                None => layout::first_index(text_command(b), 0, count as int)
                    == layout::first_index(text_command(b), i as int, count as int),
            },
        decreases count - i,
    {
        if !holds_command(data, off, little) {
            assert(!layout::has_command(b, i as int));
            return true;
        }
        let kind: u32 = read_u32(data, off, little);
        let step: u32 = read_u32(data, off + 4, little);
        if kind == layout::LC_MAIN {
            if main.is_none() {
                main = Some(read_u64(data, off + 8, little));
                proof {
                    main_at = i as int;
                }
            }
        }
        if kind == layout::LC_SEGMENT || kind == layout::LC_SEGMENT_64 {
            if text.is_none() && is_text_name(data, off + 8) {
                text = if kind == layout::LC_SEGMENT_64 {
                    Some((read_u64(data, off + 24, little), read_u64(data, off + 40, little)))
                } else {
                    Some(
                        (
                            read_u32(data, off + 24, little) as u64,
                            read_u32(data, off + 32, little) as u64,
                        ),
                    )
                };
                proof {
                    text_at = i as int;
                }
            }
        }
        off = off + step as usize;
        i = i + 1;
    }
    match (main, text) {
        (Some(entry), Some((vmaddr, fileoff))) => fileoff <= vmaddr && entry <= u64::MAX - (vmaddr
            - fileoff),
        _ => true,
    }
}

} // verus!
