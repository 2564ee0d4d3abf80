//! Comparing pieces of text.

use vstd::prelude::*;
use vstd::string::StringSliceAdditionalSpecFns;
use crate::frame::{delimiter_free, DELIMITER};
use vstd::utf8::{
    char_is_scalar, char_u32_cast, decode_utf8, encode_scalar, encode_utf8,
    encode_utf8_decode_utf8, has_width_1_encoding, has_width_2_encoding, has_width_3_encoding,
};

verus! {

/// Two texts with the same UTF-8 encoding are the same text.
pub proof fn lemma_encoding_is_injective(left: Seq<char>, right: Seq<char>)
    requires
        encode_utf8(left) == encode_utf8(right),
    ensures
        left == right,
{
    encode_utf8_decode_utf8(left);
    encode_utf8_decode_utf8(right);
    assert(decode_utf8(encode_utf8(left)) == decode_utf8(encode_utf8(right)));
}

/// Whether `left` and `right` hold the same characters.
pub fn same_str(left: &str, right: &str) -> (same: bool)
    ensures
        same == (left@ == right@),
{
    let a = left.as_bytes();
    let b = right.as_bytes();
    if a.len() != b.len() {
        return false;
    }
    let mut i: usize = 0;
    while i < a.len()
        invariant
            a@ == encode_utf8(left@),
            b@ == encode_utf8(right@),
            a@.len() == b@.len(),
            i <= a@.len(),
            forall|j: int| 0 <= j < i ==> a@[j] == b@[j],
        decreases a@.len() - i,
    {
        if a[i] != b[i] {
            return false;
        }
        i += 1;
    }
    proof {
        assert(a@ =~= b@);
        lemma_encoding_is_injective(left@, right@);
    }
    true
}

/// Whether `text` holds no line feed.
pub open spec fn single_line(text: Seq<char>) -> bool {
    forall|i: int| 0 <= i < text.len() ==> text[i] != '\n'
}

/// Two texts without a line feed make a text without one.
pub proof fn lemma_single_line_joined(left: Seq<char>, right: Seq<char>)
    requires
        single_line(left),
        single_line(right),
    ensures
        single_line(left + right),
{
    assert forall|i: int| 0 <= i < (left + right).len() implies (left + right)[i] != '\n' by {
        if i < left.len() {
            assert((left + right)[i] == left[i]);
        } else {
            assert((left + right)[i] == right[i - left.len()]);
        }
    }
}

/// The encoding of a character other than the line feed holds no
/// delimiter.
proof fn lemma_scalar_is_single_line(scalar: u32)
    requires
        scalar != 10,
    ensures
        delimiter_free(encode_scalar(scalar)),
{
    if has_width_1_encoding(scalar) {
        assert(((scalar & 0x7F) as u8) != 10u8) by (bit_vector)
            requires
                scalar <= 0x7F,
                scalar != 10,
        ;
    } else if has_width_2_encoding(scalar) {
        assert((0xC0u8 | (((scalar >> 6) & 0x1F) as u8)) != 10u8) by (bit_vector);
        assert((0x80u8 | ((scalar & 0x3F) as u8)) != 10u8) by (bit_vector);
    } else if has_width_3_encoding(scalar) {
        assert((0xE0u8 | (((scalar >> 12) & 0x0F) as u8)) != 10u8) by (bit_vector);
        assert((0x80u8 | (((scalar >> 6) & 0x3F) as u8)) != 10u8) by (bit_vector);
        assert((0x80u8 | ((scalar & 0x3F) as u8)) != 10u8) by (bit_vector);
    } else {
        assert((0xF0u8 | (((scalar >> 18) & 0x7) as u8)) != 10u8) by (bit_vector);
        assert((0x80u8 | (((scalar >> 12) & 0x3F) as u8)) != 10u8) by (bit_vector);
        assert((0x80u8 | (((scalar >> 6) & 0x3F) as u8)) != 10u8) by (bit_vector);
        assert((0x80u8 | ((scalar & 0x3F) as u8)) != 10u8) by (bit_vector);
    }
}

/// A text without a line feed is encoded without a delimiter.
pub proof fn lemma_single_line_encoded(text: Seq<char>)
    requires
        single_line(text),
    ensures
        delimiter_free(encode_utf8(text)),
    decreases text.len(),
{
    if text.len() > 0 {
        let first = text[0];
        let scalar = first as u32;
        assert(first != '\n');
        char_is_scalar(first);
        char_u32_cast(first, scalar);
        char_u32_cast('\n', 10u32);
        lemma_scalar_is_single_line(scalar);
        let head = encode_scalar(scalar);
        let rest = text.drop_first();
        assert forall|i: int| 0 <= i < rest.len() implies rest[i] != '\n' by {
            assert(rest[i] == text[i + 1]);
        }
        lemma_single_line_encoded(rest);
        let tail = encode_utf8(rest);
        assert forall|i: int| 0 <= i < (head + tail).len() implies (head + tail)[i] != DELIMITER by {
            if i < head.len() {
                assert((head + tail)[i] == head[i]);
            } else {
                assert((head + tail)[i] == tail[i - head.len()]);
            }
        }
    }
}

} // verus!
