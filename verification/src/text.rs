//! Slicing of UTF-8 text at positions next to ASCII bytes.

use vstd::prelude::*;
use vstd::string::*;
use vstd::utf8::*;

verus! {

/// True for the bytes that encode an ASCII character.
pub open spec fn is_ascii_byte(b: u8) -> bool {
    b < 0x80
}

/// In well-formed UTF-8 an ASCII byte starts a character.
pub proof fn lemma_boundary_at_ascii(bytes: Seq<u8>, i: int)
    requires
        valid_utf8(bytes),
        0 <= i < bytes.len(),
        is_ascii_byte(bytes[i]),
    ensures
        is_char_boundary(bytes, i),
{
    is_char_boundary_iff_not_is_continuation_byte(bytes, i);
}

/// In well-formed UTF-8 a character starts, or the text ends, right after
/// an ASCII byte.
pub proof fn lemma_boundary_after_ascii(bytes: Seq<u8>, i: int)
    requires
        valid_utf8(bytes),
        0 <= i < bytes.len(),
        is_ascii_byte(bytes[i]),
    ensures
        is_char_boundary(bytes, i + 1),
{
    lemma_boundary_at_ascii(bytes, i);
    valid_utf8_split(bytes, i);
    let suffix = bytes.subrange(i, bytes.len() as int);
    assert(suffix[0] == bytes[i]);
    assert(valid_first_scalar(suffix));
    assert(length_of_first_scalar(suffix) == 1);
    let rest = pop_first_scalar(suffix);
    assert(rest =~= bytes.subrange(i + 1, bytes.len() as int));
    assert(valid_utf8(rest));
    if i + 1 < bytes.len() {
        assert(rest[0] == bytes[i + 1]);
        assert(valid_first_scalar(rest));
        assert(!is_continuation_byte(bytes[i + 1]));
        is_char_boundary_iff_not_is_continuation_byte(bytes, i + 1);
    } else {
        is_char_boundary_start_end_of_seq(bytes);
    }
}

/// Copies the part of `source` between the byte offsets `start` and `end`,
/// which must begin and end with an ASCII byte.
pub fn substring(source: &str, start: usize, end: usize) -> (text: String)
    requires
        start < end <= source.spec_bytes().len(),
        is_ascii_byte(source.spec_bytes()[start as int]),
        is_ascii_byte(source.spec_bytes()[end - 1]),
    ensures
        text@ == decode_utf8(source.spec_bytes().subrange(start as int, end as int)),
{
    let ghost bytes = source.spec_bytes();
    proof {
        encode_utf8_valid_utf8(source@);
        lemma_boundary_after_ascii(bytes, end - 1);
    }
    let (head, _) = source.split_at(end);
    proof {
        encode_utf8_valid_utf8(head@);
        assert(head.spec_bytes()[start as int] == bytes[start as int]);
        lemma_boundary_at_ascii(head.spec_bytes(), start as int);
    }
    let (_, piece) = head.split_at(start);
    let text = piece.to_owned();
    proof {
        assert(piece.spec_bytes() =~= bytes.subrange(start as int, end as int));
        encode_utf8_decode_utf8(piece@);
    }
    text
}

} // verus!
