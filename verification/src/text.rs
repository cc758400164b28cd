//! Texts, compared by their bytes.
use vstd::prelude::*;

verus! {

/// Texts with the same encoding are the same.
proof fn lemma_encoding_is_unique(a: Seq<char>, b: Seq<char>)
    ensures
        vstd::utf8::encode_utf8(a) == vstd::utf8::encode_utf8(b) ==> a == b,
{
    vstd::utf8::encode_utf8_decode_utf8(a);
    vstd::utf8::encode_utf8_decode_utf8(b);
}

/// A text starts with another one if and only if its encoding starts with the other's.
proof fn lemma_prefix_of_encoding(a: Seq<char>, b: Seq<char>)
    ensures
        a.is_prefix_of(b) <==> vstd::utf8::encode_utf8(a).is_prefix_of(vstd::utf8::encode_utf8(b)),
    decreases a.len(),
{
    let x = vstd::utf8::encode_utf8(a);
    let y = vstd::utf8::encode_utf8(b);
    if a.len() > 0 && b.len() > 0 {
        vstd::utf8::encode_utf8_first_scalar(a);
        vstd::utf8::encode_utf8_first_scalar(b);
        let a_head = vstd::utf8::encode_scalar(a[0] as u32);
        let b_head = vstd::utf8::encode_scalar(b[0] as u32);
        let a_tail = vstd::utf8::encode_utf8(a.drop_first());
        let b_tail = vstd::utf8::encode_utf8(b.drop_first());
        lemma_prefix_of_encoding(a.drop_first(), b.drop_first());
        if a.is_prefix_of(b) {
            assert(a.drop_first().is_prefix_of(b.drop_first()));
        }
        if x.is_prefix_of(y) {
            vstd::utf8::char_u32_cast(a[0], a[0] as u32);
            vstd::utf8::char_u32_cast(b[0], a[0] as u32);
            assert forall|i: int| 0 <= i < a_tail.len() implies a_tail[i] == b_tail[i] by {
                assert(x[i + a_head.len()] == y[i + a_head.len()]);
            }
            assert forall|i: int| 0 <= i < a.len() implies a[i] == b[i] by {
                if i > 0 {
                    assert(a.drop_first()[i - 1] == b.drop_first()[i - 1]);
                }
            }
        }
    } else if a.len() > 0 {
        vstd::utf8::encode_utf8_first_scalar(a);
    }
}

/// Whether `bytes` goes on with `part` at `from`.
pub(crate) fn has_bytes_at(bytes: &[u8], from: usize, part: &[u8]) -> (res: bool)
    requires
        from <= bytes@.len(),
    ensures
        res == part@.is_prefix_of(bytes@.skip(from as int)),
{
    if part.len() > bytes.len() - from {
        return false;
    }
    let mut i: usize = 0;
    while i < part.len()
        invariant
            i <= part@.len(),
            from + part@.len() <= bytes@.len(),
            bytes@.len() == bytes.len(),
            forall|k: int| 0 <= k < i ==> part@[k] == #[trigger] bytes@.skip(from as int)[k],
        decreases part.len() - i,
    {
        if bytes[from + i] != part[i] {
            return false;
        }
        i = i + 1;
    }
    true
}

/// Tells whether two texts are the same.
pub(crate) fn same(a: &str, b: &str) -> (res: bool)
    ensures
        res == (a@ == b@),
{
    proof {
        lemma_encoding_is_unique(a@, b@);
    }
    let x = a.as_bytes();
    let y = b.as_bytes();
    let equal = x.len() == y.len() && has_bytes_at(x, 0, y);
    assert(x@.skip(0) == x@);
    equal
}

/// Tells whether a text starts with another one.
pub(crate) fn has_prefix(text: &str, prefix: &str) -> (res: bool)
    ensures
        res == prefix@.is_prefix_of(text@),
{
    proof {
        lemma_prefix_of_encoding(prefix@, text@);
    }
    let bytes = text.as_bytes();
    has_bytes_at(bytes, 0, prefix.as_bytes())
}

/// The text without the underscore that it starts with, if it does.
pub open spec fn without_underscore(text: Seq<char>) -> Seq<char> {
    if text.len() > 0 && text[0] == '_' {
        text.drop_first()
    } else {
        text
    }
}

/// Takes away the underscore that a text starts with, if it does.
pub(crate) fn trim_underscore<'a>(text: &'a str) -> (res: &'a str)
    ensures
        res@ == without_underscore(text@),
{
    if has_prefix(text, "_") {
        proof {
            reveal_strlit("_");
            let bytes = vstd::utf8::encode_utf8(text@);
            assert("_"@[0] == '_');
            vstd::utf8::encode_utf8_valid_utf8(text@);
            vstd::utf8::encode_utf8_first_scalar(text@);
            vstd::utf8::encode_utf8_valid_utf8(text@.drop_first());
            vstd::utf8::is_char_boundary_start_end_of_seq(
                vstd::utf8::pop_first_scalar(bytes),
            );
            assert(bytes.subrange(1, bytes.len() as int) == vstd::utf8::encode_utf8(
                text@.drop_first(),
            ));
        }
        let res = text.split_at(1).1;
        proof {
            lemma_encoding_is_unique(res@, text@.drop_first());
        }
        res
    } else {
        proof {
            reveal_strlit("_");
        }
        text
    }
}

} // verus!
