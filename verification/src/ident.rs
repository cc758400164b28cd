//! Identifiers of images.
use vstd::prelude::*;
use vstd::string::StringExecFns;

verus! {

/// The hexadecimal digit of a number below 16, in lower case.
pub open spec fn hex_digit(n: int) -> char {
    if n == 0 {
        '0'
    } else if n == 1 {
        '1'
    } else if n == 2 {
        '2'
    } else if n == 3 {
        '3'
    } else if n == 4 {
        '4'
    } else if n == 5 {
        '5'
    } else if n == 6 {
        '6'
    } else if n == 7 {
        '7'
    } else if n == 8 {
        '8'
    } else if n == 9 {
        '9'
    } else if n == 10 {
        'a'
    } else if n == 11 {
        'b'
    } else if n == 12 {
        'c'
    } else if n == 13 {
        'd'
    } else if n == 14 {
        'e'
    } else {
        'f'
    }
}

/// The hexadecimal form of some bytes: two digits for each of them.
pub open spec fn hex(bytes: Seq<u8>) -> Seq<char> {
    Seq::new(
        2 * bytes.len(),
        |i: int|
            if i % 2 == 0 {
                hex_digit(bytes[i / 2] as int / 16)
            } else {
                hex_digit(bytes[i / 2] as int % 16)
            },
    )
}

/// The digit as a text.
fn hex_digit_text(n: u8) -> (res: &'static str)
    requires
        n < 16,
    ensures
        res@ == seq![hex_digit(n as int)],
{
    proof {
        reveal_strlit("0");
        reveal_strlit("1");
        reveal_strlit("2");
        reveal_strlit("3");
        reveal_strlit("4");
        reveal_strlit("5");
        reveal_strlit("6");
        reveal_strlit("7");
        reveal_strlit("8");
        reveal_strlit("9");
        reveal_strlit("a");
        reveal_strlit("b");
        reveal_strlit("c");
        reveal_strlit("d");
        reveal_strlit("e");
        reveal_strlit("f");
    }
    match n {
        0 => "0",
        1 => "1",
        2 => "2",
        3 => "3",
        4 => "4",
        5 => "5",
        6 => "6",
        7 => "7",
        8 => "8",
        9 => "9",
        10 => "a",
        11 => "b",
        12 => "c",
        13 => "d",
        14 => "e",
        _ => "f",
    }
}

/// The identifier of a code file, in its hexadecimal form.
#[derive(Clone, Debug, PartialEq, Eq)]
pub struct CodeId {
    text: String,
}

impl View for CodeId {
    type V = Seq<char>;

    closed spec fn view(&self) -> Seq<char> {
        self.text@
    }
}

impl CodeId {
    /// The identifier that consists of these bytes.
    pub fn from_binary(bytes: &[u8]) -> (res: CodeId)
        ensures
            res@ == hex(bytes@),
    {
        let mut text = String::new();
        let mut i: usize = 0;
        while i < bytes.len()
            invariant
                i <= bytes@.len(),
                text@ == hex(bytes@.take(i as int)),
            decreases bytes.len() - i,
        {
            let byte: u8 = bytes[i];
            text.append(hex_digit_text(byte / 16));
            text.append(hex_digit_text(byte % 16));
            i = i + 1;
        }
        CodeId { text }
    }

    /// The hexadecimal form of the identifier.
    pub fn as_str(&self) -> (res: &str)
        ensures
            res@ == self@,
    {
        self.text.as_str()
    }
}

/// The identifier of a debug information file: that of the image, and a number that tells apart
/// the versions of an image with the same identifier.
#[derive(Clone, Copy, Debug, PartialEq, Eq)]
pub struct DebugId {
    uuid: [u8; 16],
    appendix: u32,
}

impl DebugId {
    /// The bytes of the identifier of the image.
    pub closed spec fn spec_uuid(self) -> Seq<u8> {
        self.uuid@
    }

    /// The number that comes with it.
    pub closed spec fn spec_appendix(self) -> u32 {
        self.appendix
    }

    /// The identifier for an image without versions.
    pub fn from_uuid(uuid: [u8; 16]) -> (res: DebugId)
        ensures
            res.spec_uuid() == uuid@,
            res.spec_appendix() == 0,
    {
        DebugId { uuid, appendix: 0 }
    }

    /// The bytes of the identifier of the image.
    pub fn uuid(&self) -> (res: [u8; 16])
        ensures
            res@ == self.spec_uuid(),
    {
        self.uuid
    }

    /// The number that comes with it.
    pub fn appendix(&self) -> (res: u32)
        ensures
            res == self.spec_appendix(),
    {
        self.appendix
    }
}

impl Default for DebugId {
    /// The identifier of an image that has none: all bytes are zero.
    fn default() -> (res: DebugId)
        ensures
            res.spec_uuid() == Seq::new(16, |i: int| 0u8),
            res.spec_appendix() == 0,
    {
        DebugId { uuid: [0u8; 16], appendix: 0 }
    }
}

} // verus!
