//! One Unicode scalar value at a time out of a stream of UTF-8 bytes.

use vstd::prelude::*;
use vstd::utf8::{
    codepoint_width_1, codepoint_width_2, codepoint_width_3, codepoint_width_4,
    decode_first_scalar, encode_scalar, encode_utf8, encode_utf8_first_scalar,
    is_continuation_byte, is_scalar, length_of_first_scalar, valid_first_scalar,
};

verus! {

/// What a run of bytes from the start of a scalar value amounts to.
#[derive(PartialEq, Eq, Structural, Clone, Copy, Debug)]
pub enum Decoded {
    /// The bytes are the whole encoding of this scalar value.
    Scalar(u32),
    /// The bytes begin the encoding of a scalar value and do not end
    /// it.
    Incomplete,
    /// No encoding of a scalar value begins with the bytes.
    Malformed,
}

/// Whether the bytes are the encoding of one scalar value, from its
/// first byte to its last.
pub open spec fn is_whole_scalar(bytes: Seq<u8>) -> bool {
    &&& bytes.len() >= 1
    &&& valid_first_scalar(bytes)
    &&& length_of_first_scalar(bytes) == bytes.len()
}

/// Whether the bytes begin the encoding of a scalar value and do not
/// end it: some bytes after them make it whole.
pub open spec fn is_scalar_prefix(bytes: Seq<u8>) -> bool {
    exists|rest: Seq<u8>| rest.len() > 0 && #[trigger] is_whole_scalar(bytes + rest)
}

/// What a run of bytes from the start of a scalar value amounts to.
pub open spec fn decoded(bytes: Seq<u8>) -> Decoded {
    if is_whole_scalar(bytes) {
        Decoded::Scalar(decode_first_scalar(bytes))
    } else if is_scalar_prefix(bytes) {
        Decoded::Incomplete
    } else {
        Decoded::Malformed
    }
}

/// The number of bytes in the encoding that a first byte opens, and
/// zero for a byte that opens none.
pub open spec fn width_of(first: u8) -> int {
    if first <= 0x7F {
        1
    } else if 0xC2 <= first <= 0xDF {
        2
    } else if 0xE0 <= first <= 0xEF {
        3
    } else if 0xF0 <= first <= 0xF4 {
        4
    } else {
        0
    }
}

/// Whether a second byte can follow a first one in an encoding. The
/// range is narrower after four first bytes, which keeps out encodings
/// that are longer than needed, surrogates, and numbers above the last
/// scalar value.
pub open spec fn second_follows(first: u8, second: u8) -> bool {
    if first == 0xE0 {
        0xA0 <= second <= 0xBF
    } else if first == 0xED {
        0x80 <= second <= 0x9F
    } else if first == 0xF0 {
        0x90 <= second <= 0xBF
    } else if first == 0xF4 {
        0x80 <= second <= 0x8F
    } else {
        0x80 <= second <= 0xBF
    }
}

/// Whether every byte is one that can stand at its place in an
/// encoding, and the bytes are no more than the first one opens.
pub open spec fn fits_encoding(bytes: Seq<u8>) -> bool {
    &&& 1 <= bytes.len() <= width_of(bytes[0])
    &&& bytes.len() >= 2 ==> second_follows(bytes[0], bytes[1])
    &&& bytes.len() >= 3 ==> is_continuation_byte(bytes[2])
    &&& bytes.len() >= 4 ==> is_continuation_byte(bytes[3])
}

/// The scalar value that the bytes of a whole encoding stand for.
pub open spec fn scalar_of(bytes: Seq<u8>) -> u32
    recommends
        fits_encoding(bytes),
        bytes.len() == width_of(bytes[0]),
{
    if bytes.len() == 1 {
        codepoint_width_1(bytes[0])
    } else if bytes.len() == 2 {
        codepoint_width_2(bytes[0], bytes[1])
    } else if bytes.len() == 3 {
        codepoint_width_3(bytes[0], bytes[1], bytes[2])
    } else {
        codepoint_width_4(bytes[0], bytes[1], bytes[2], bytes[3])
    }
}

/// Bytes that make a fitting run whole: the least byte that can stand
/// at each place that is still open.
pub open spec fn completion(bytes: Seq<u8>) -> Seq<u8>
    recommends
        fits_encoding(bytes),
{
    let second: u8 = if bytes[0] == 0xE0 {
        0xA0
    } else if bytes[0] == 0xF0 {
        0x90
    } else {
        0x80
    };
    let all = seq![bytes[0], second, 0x80u8, 0x80u8];
    all.subrange(bytes.len() as int, width_of(bytes[0]))
}

/// A first byte below `0x80` stands for its own number.
proof fn lemma_one_byte(first: u8)
    by (bit_vector)
    requires
        first <= 0x7F,
    ensures
        codepoint_width_1(first) == first as u32,
{
}

/// Two bytes stand for a number that needs two bytes unless the first
/// is `0xC0` or `0xC1`.
proof fn lemma_two_bytes(first: u8, second: u8)
    by (bit_vector)
    requires
        0xC0 <= first <= 0xDF,
        0x80 <= second <= 0xBF,
    ensures
        codepoint_width_2(first, second) >= 0x80 <==> first >= 0xC2,
        codepoint_width_2(first, second) <= 0x7FF,
{
}

/// Three bytes stand for a number that needs three bytes unless the
/// second is too low after `0xE0`, and for a surrogate where it is too
/// high after `0xED`.
proof fn lemma_three_bytes(first: u8, second: u8, third: u8)
    by (bit_vector)
    requires
        0xE0 <= first <= 0xEF,
        0x80 <= second <= 0xBF,
        0x80 <= third <= 0xBF,
    ensures
        codepoint_width_3(first, second, third) >= 0x800 <==> !(first == 0xE0 && second < 0xA0),
        0xD800 <= codepoint_width_3(first, second, third) <= 0xDFFF <==> first == 0xED && second
            >= 0xA0,
        codepoint_width_3(first, second, third) <= 0xFFFF,
{
}

/// Four bytes stand for a number that needs four bytes unless the
/// second is too low after `0xF0`, and for a number above the last
/// scalar value where the first is above `0xF4` or the second too high
/// after it.
proof fn lemma_four_bytes(first: u8, second: u8, third: u8, fourth: u8)
    by (bit_vector)
    requires
        0xF0 <= first <= 0xF7,
        0x80 <= second <= 0xBF,
        0x80 <= third <= 0xBF,
        0x80 <= fourth <= 0xBF,
    ensures
        codepoint_width_4(first, second, third, fourth) >= 0x10000 <==> !(first == 0xF0 && second
            < 0x90),
        codepoint_width_4(first, second, third, fourth) <= 0x10FFFF <==> first < 0xF4 || (first
            == 0xF4 && second < 0x90),
{
}

/// The bytes of one scalar value, from first to last, are the runs in
/// which every byte can stand at its place and which are as long as
/// the first byte says; they stand for a scalar value.
pub proof fn lemma_whole_scalar(bytes: Seq<u8>)
    ensures
        is_whole_scalar(bytes) <==> fits_encoding(bytes) && bytes.len() == width_of(bytes[0]),
        is_whole_scalar(bytes) ==> decode_first_scalar(bytes) == scalar_of(bytes) && is_scalar(
            scalar_of(bytes),
        ),
{
    if bytes.len() >= 1 {
        let first = bytes[0];
        if first <= 0x7F {
            lemma_one_byte(first);
        } else if 0xC0 <= first <= 0xDF {
            if bytes.len() >= 2 && is_continuation_byte(bytes[1]) {
                lemma_two_bytes(first, bytes[1]);
            }
        } else if 0xE0 <= first <= 0xEF {
            if bytes.len() >= 3 && is_continuation_byte(bytes[1]) && is_continuation_byte(
                bytes[2],
            ) {
                lemma_three_bytes(first, bytes[1], bytes[2]);
            }
        } else if 0xF0 <= first <= 0xF7 {
            if bytes.len() >= 4 && is_continuation_byte(bytes[1]) && is_continuation_byte(bytes[2])
                && is_continuation_byte(bytes[3]) {
                lemma_four_bytes(first, bytes[1], bytes[2], bytes[3]);
            }
        }
    }
}

/// The runs that begin the bytes of a scalar value and do not end them
/// are the empty run and the runs in which every byte can stand at its
/// place and which are shorter than the first byte says.
pub proof fn lemma_scalar_prefix(bytes: Seq<u8>)
    ensures
        is_scalar_prefix(bytes) <==> bytes.len() == 0 || (fits_encoding(bytes) && bytes.len()
            < width_of(bytes[0])),
{
    if bytes.len() == 0 {
        let rest = seq![0u8];
        assert((bytes + rest)[0] == 0u8);
        lemma_whole_scalar(bytes + rest);
        assert(is_whole_scalar(bytes + rest));
    } else if fits_encoding(bytes) && bytes.len() < width_of(bytes[0]) {
        let rest = completion(bytes);
        let whole = bytes + rest;
        assert(whole.len() == width_of(bytes[0]));
        assert(whole[0] == bytes[0]);
        assert(fits_encoding(whole));
        lemma_whole_scalar(whole);
        assert(is_whole_scalar(bytes + rest));
    }
    if is_scalar_prefix(bytes) && bytes.len() > 0 {
        let rest = choose|rest: Seq<u8>| rest.len() > 0 && #[trigger] is_whole_scalar(bytes + rest);
        let whole = bytes + rest;
        lemma_whole_scalar(whole);
        assert(whole[0] == bytes[0]);
        if bytes.len() >= 2 {
            assert(whole[1] == bytes[1]);
        }
        if bytes.len() >= 3 {
            assert(whole[2] == bytes[2]);
        }
        if bytes.len() >= 4 {
            assert(whole[3] == bytes[3]);
        }
    }
}

/// The bytes in which a character is written amount to the scalar
/// value of that character, and every run that begins them and does not
/// end them is incomplete: read byte by byte, they give the character
/// back at the last byte and nothing before.
pub proof fn lemma_decodes_encoding(ch: char, taken: int)
    requires
        0 <= taken <= encode_scalar(ch as u32).len(),
    ensures
        decoded(encode_scalar(ch as u32).subrange(0, taken)) == if taken == encode_scalar(
            ch as u32,
        ).len() {
            Decoded::Scalar(ch as u32)
        } else {
            Decoded::Incomplete
        },
{
    let bytes = encode_scalar(ch as u32);
    let chars = seq![ch];
    encode_utf8_first_scalar(chars);
    assert(encode_utf8(chars.drop_first()) =~= Seq::<u8>::empty()) by {
        assert(chars.drop_first().len() == 0);
    }
    assert(encode_utf8(chars) =~= bytes);
    assert(is_whole_scalar(bytes));
    let head = bytes.subrange(0, taken);
    if taken == bytes.len() {
        assert(head =~= bytes);
    } else {
        let rest = bytes.subrange(taken, bytes.len() as int);
        assert(head + rest =~= bytes);
        assert(is_whole_scalar(head + rest));
        lemma_whole_scalar(bytes);
        lemma_whole_scalar(head);
        if head.len() > 0 {
            assert(head[0] == bytes[0]);
        }
    }
}

/// The number of bytes in the encoding that a first byte opens, and
/// zero for a byte that opens none.
fn width(first: u8) -> (res: usize)
    ensures
        res == width_of(first),
{
    if first <= 0x7F {
        1
    } else if 0xC2 <= first && first <= 0xDF {
        2
    } else if 0xE0 <= first && first <= 0xEF {
        3
    } else if 0xF0 <= first && first <= 0xF4 {
        4
    } else {
        0
    }
}

/// Whether a byte continues an encoding.
fn continues(byte: u8) -> (res: bool)
    ensures
        res == is_continuation_byte(byte),
{
    0x80 <= byte && byte <= 0xBF
}

/// Whether a second byte can follow a first one in an encoding.
fn follows(first: u8, second: u8) -> (res: bool)
    ensures
        res == second_follows(first, second),
{
    if first == 0xE0 {
        0xA0 <= second && second <= 0xBF
    } else if first == 0xED {
        0x80 <= second && second <= 0x9F
    } else if first == 0xF0 {
        0x90 <= second && second <= 0xBF
    } else if first == 0xF4 {
        0x80 <= second && second <= 0x8F
    } else {
        0x80 <= second && second <= 0xBF
    }
}

/// The six low bits of a byte that continues an encoding.
fn low_bits(byte: u8) -> (res: u32)
    ensures
        res == vstd::utf8::continuation_bits(byte),
{
    (byte & 0x3F) as u32
}

/// Says what a run of bytes from the start of a scalar value amounts
/// to: the scalar value, the need for more bytes, or an error.
pub fn decode(bytes: &[u8]) -> (res: Decoded)
    ensures
        res == decoded(bytes@),
{
    proof {
        lemma_whole_scalar(bytes@);
        lemma_scalar_prefix(bytes@);
    }
    let len = bytes.len();
    if len == 0 {
        return Decoded::Incomplete;
    }
    let first = bytes[0];
    let expected = width(first);
    if len > expected {
        return Decoded::Malformed;
    }
    if len >= 2 && !follows(first, bytes[1]) {
        return Decoded::Malformed;
    }
    if len >= 3 && !continues(bytes[2]) {
        return Decoded::Malformed;
    }
    if len >= 4 && !continues(bytes[3]) {
        return Decoded::Malformed;
    }
    if len < expected {
        return Decoded::Incomplete;
    }
    let scalar = if len == 1 {
        (first & 0x7F) as u32
    } else if len == 2 {
        (((first & 0x1F) as u32) << 6) | low_bits(bytes[1])
    } else if len == 3 {
        (((first & 0x0F) as u32) << 12) | (low_bits(bytes[1]) << 6) | low_bits(bytes[2])
    } else {
        (((first & 0x07) as u32) << 18) | (low_bits(bytes[1]) << 12) | (low_bits(bytes[2]) << 6)
            | low_bits(bytes[3])
    };
    Decoded::Scalar(scalar)
}

/// The bytes in which a number is written: the encoding of the scalar
/// value of that number, and nothing for a number that is no scalar
/// value.
pub open spec fn encoded(number: u32) -> Seq<u8> {
    if is_scalar(number) {
        encode_scalar(number)
    } else {
        Seq::empty()
    }
}

/// The six bits of a number from a place on, as the byte that continues
/// an encoding with them.
fn continuation(number: u32, shift: u32) -> (res: u8)
    requires
        shift == 0 || shift == 6 || shift == 12,
    ensures
        res == 0x80u8 | ((number >> shift) & 0x3F) as u8,
{
    let bits: u32 = (number >> shift) & 0x3F;
    assert(bits <= 0x3F) by (bit_vector)
        requires
            bits == (number >> shift) & 0x3F,
    ;
    0x80u8 | (bits as u8)
}

/// The bits of a number from a place on that a first byte carries,
/// under the mark of the first byte.
fn leading(number: u32, shift: u32, mask: u32, mark: u8) -> (res: u8)
    requires
        shift == 0 || shift == 6 || shift == 12 || shift == 18,
        mask <= 0x7F,
    ensures
        res == mark | ((number >> shift) & mask) as u8,
{
    let bits: u32 = (number >> shift) & mask;
    assert(bits <= 0x7F) by (bit_vector)
        requires
            bits == (number >> shift) & mask,
            mask <= 0x7F,
    ;
    mark | (bits as u8)
}

/// Writes a number as the bytes of its scalar value, and as nothing
/// where it is no scalar value.
pub fn encode(number: u32) -> (res: Vec<u8>)
    ensures
        res@ == encoded(number),
{
    let mut out: Vec<u8> = Vec::new();
    if number <= 0x7F {
        let bits: u32 = number & 0x7F;
        assert(bits <= 0x7F) by (bit_vector)
            requires
                bits == number & 0x7F,
        ;
        out.push(bits as u8);
        assert(out@ =~= encode_scalar(number));
    } else if number <= 0x7FF {
        out.push(leading(number, 6, 0x1F, 0xC0));
        out.push(continuation(number, 0));
        assert(number >> 0 == number) by (bit_vector);
        assert(out@ =~= encode_scalar(number));
    } else if number <= 0xFFFF {
        if !(0xD800 <= number && number <= 0xDFFF) {
            out.push(leading(number, 12, 0x0F, 0xE0));
            out.push(continuation(number, 6));
            out.push(continuation(number, 0));
            assert(number >> 0 == number) by (bit_vector);
            assert(out@ =~= encode_scalar(number));
        }
    } else if number <= 0x10FFFF {
        out.push(leading(number, 18, 0x7, 0xF0));
        out.push(continuation(number, 12));
        out.push(continuation(number, 6));
        out.push(continuation(number, 0));
        assert(number >> 0 == number) by (bit_vector);
        assert(out@ =~= encode_scalar(number));
    }
    out
}

/// The bytes in which a scalar value is written amount to that scalar
/// value, and every run that begins them and does not end them is
/// incomplete.
pub proof fn lemma_decodes_encoded(number: u32, taken: int)
    requires
        is_scalar(number),
        0 <= taken <= encoded(number).len(),
    ensures
        encoded(number).len() >= 1,
        decoded(encoded(number).subrange(0, taken)) == if taken == encoded(number).len() {
            Decoded::Scalar(number)
        } else {
            Decoded::Incomplete
        },
{
    let ch = number as char;
    vstd::utf8::char_is_scalar(ch);
    assert(ch as u32 == number);
    lemma_decodes_encoding(ch, taken);
}

} // verus!
