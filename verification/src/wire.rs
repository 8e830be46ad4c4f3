//! The encoding of values as bytes.
//!
//! Integers are written in little-endian order at their full width, a
//! boolean as one byte, text as the number of its UTF-8 bytes followed by
//! those bytes, and a tagged union as one byte for the variant followed by
//! the variant's fields. Every decoder reads a value from the start of the
//! bytes it is given and says how many bytes the value took.

use vstd::bytes::{
    lemma_auto_spec_u128_to_from_le_bytes, lemma_auto_spec_u16_to_from_le_bytes,
    lemma_auto_spec_u32_to_from_le_bytes, lemma_auto_spec_u64_to_from_le_bytes,
    spec_u128_from_le_bytes, spec_u128_to_le_bytes, spec_u16_from_le_bytes,
    spec_u16_to_le_bytes, spec_u32_from_le_bytes, spec_u32_to_le_bytes, spec_u64_from_le_bytes,
    spec_u64_to_le_bytes, u128_from_le_bytes, u128_to_le_bytes, u16_from_le_bytes,
    u16_to_le_bytes, u32_from_le_bytes, u32_to_le_bytes, u64_from_le_bytes, u64_to_le_bytes,
};
use vstd::prelude::*;
use vstd::slice::{slice_subrange, slice_to_vec};
use vstd::utf8::{
    decode_utf8, decode_utf8_encode_utf8, encode_utf8, encode_utf8_decode_utf8,
    encode_utf8_valid_utf8, valid_utf8,
};

verus! {

/// A type whose values travel as bytes.
pub trait Wire: Sized {
    /// What a value holds, as mathematical data.
    type Model;

    /// What this value holds.
    spec fn model(&self) -> Self::Model;

    /// Whether `value` has an encoding: whether it is small enough for the
    /// lengths in it to be written down. Every value in memory is.
    spec fn encodable(value: Self::Model) -> bool;

    /// The bytes that stand for `value`.
    spec fn encoding(value: Self::Model) -> Seq<u8>;

    /// The value that `bytes` start with, and the number of bytes that it
    /// takes; nothing where `bytes` do not start with a value.
    spec fn decoding(bytes: Seq<u8>) -> Option<(Self::Model, int)>;

    /// Decoding undoes encoding, whatever follows the encoded value.
    proof fn lemma_round_trip(value: Self::Model, rest: Seq<u8>)
        requires
            Self::encodable(value),
        ensures
            Self::decoding(Self::encoding(value) + rest) == Some(
                (value, Self::encoding(value).len() as int),
            ),
    ;

    /// Nothing but an encoding is decoded: the bytes that a decoded value
    /// took are the encoding of that value.
    proof fn lemma_decoded(bytes: Seq<u8>)
        ensures
            Self::decoding(bytes) matches Some((value, used)) ==> Self::encodable(value) && 0
                <= used <= bytes.len() && bytes.take(used) == Self::encoding(value),
    ;

    /// Appends the encoding of the value to `out`.
    fn encode(&self, out: &mut Vec<u8>)
        ensures
            Self::encodable(self.model()),
            final(out)@ == old(out)@ + Self::encoding(self.model()),
    ;

    /// Reads a value from `bytes` at `start`, and says where it ends.
    fn decode(bytes: &Vec<u8>, start: usize) -> (r: Option<(Self, usize)>)
        requires
            start <= bytes@.len(),
        ensures
            match Self::decoding(bytes@.skip(start as int)) {
                Some((value, used)) => r matches Some((read, end)) && read.model() == value
                    && start <= end && end == start + used && end <= bytes@.len(),
                None => r is None,
            },
    ;
}

/// A tag byte in front of a body, taken apart again.
pub proof fn lemma_tagged(tag: u8, body: Seq<u8>, rest: Seq<u8>)
    ensures
        ((seq![tag] + body) + rest).len() == 1 + body.len() + rest.len(),
        ((seq![tag] + body) + rest)[0] == tag,
        ((seq![tag] + body) + rest).skip(1) == body + rest,
{
    assert(((seq![tag] + body) + rest).skip(1) =~= body + rest);
}

/// The first field of a record decodes, and what follows it is left.
pub proof fn lemma_first_field<T: Wire>(value: T::Model, tail: Seq<u8>, rest: Seq<u8>)
    requires
        T::encodable(value),
    ensures
        T::decoding((T::encoding(value) + tail) + rest) == Some(
            (value, T::encoding(value).len() as int),
        ),
        ((T::encoding(value) + tail) + rest).skip(T::encoding(value).len() as int) == tail + rest,
{
    lemma_assoc(T::encoding(value), tail, rest);
    T::lemma_round_trip(value, tail + rest);
    lemma_split(T::encoding(value), tail + rest);
}

/// The two parts of a concatenation, taken apart again.
pub proof fn lemma_split(first: Seq<u8>, second: Seq<u8>)
    ensures
        (first + second).len() == first.len() + second.len(),
        (first + second).take(first.len() as int) == first,
        (first + second).skip(first.len() as int) == second,
{
    assert((first + second).take(first.len() as int) =~= first);
    assert((first + second).skip(first.len() as int) =~= second);
}

/// Concatenation may be bracketed either way.
pub proof fn lemma_assoc(first: Seq<u8>, second: Seq<u8>, third: Seq<u8>)
    ensures
        (first + second) + third == first + (second + third),
{
    assert((first + second) + third =~= first + (second + third));
}

/// Skipping twice is skipping once, and a part of what is left after
/// skipping is a part of the whole.
pub proof fn lemma_skip(bytes: Seq<u8>, start: int, more: int)
    requires
        0 <= start,
        0 <= more,
        start + more <= bytes.len(),
    ensures
        bytes.skip(start).skip(more) == bytes.skip(start + more),
        bytes.skip(start).take(more) == bytes.subrange(start, start + more),
        bytes.skip(start).subrange(0, more) == bytes.subrange(start, start + more),
{
    assert(bytes.skip(start).skip(more) =~= bytes.skip(start + more));
    assert(bytes.skip(start).take(more) =~= bytes.subrange(start, start + more));
    assert(bytes.skip(start).subrange(0, more) =~= bytes.subrange(start, start + more));
}

/// A part taken from the start is what is taken first and what is taken
/// next from the rest.
pub proof fn lemma_take_more(bytes: Seq<u8>, first: int, next: int)
    requires
        0 <= first,
        0 <= next,
        first + next <= bytes.len(),
    ensures
        bytes.take(first + next) == bytes.take(first) + bytes.skip(first).take(next),
{
    assert(bytes.take(first + next) =~= bytes.take(first) + bytes.skip(first).take(next));
}

/// A tag byte and the body behind it, put together again.
pub proof fn lemma_tag_and_body(bytes: Seq<u8>, used: int)
    requires
        0 <= used,
        1 + used <= bytes.len(),
    ensures
        bytes.take(1 + used) == seq![bytes[0]] + bytes.skip(1).take(used),
{
    assert(bytes.take(1 + used) =~= seq![bytes[0]] + bytes.skip(1).take(used));
}

/// One byte.
pub open spec fn u8_encoding(x: u8) -> Seq<u8> {
    seq![x]
}

pub open spec fn u8_decoding(bytes: Seq<u8>) -> Option<(u8, int)> {
    if bytes.len() >= 1 {
        Some((bytes[0], 1))
    } else {
        None
    }
}

/// Two bytes, the low one first.
pub open spec fn u16_encoding(x: u16) -> Seq<u8> {
    spec_u16_to_le_bytes(x)
}

pub open spec fn u16_decoding(bytes: Seq<u8>) -> Option<(u16, int)> {
    if bytes.len() >= 2 {
        Some((spec_u16_from_le_bytes(bytes.take(2)), 2))
    } else {
        None
    }
}

/// Four bytes, the lowest first.
pub open spec fn u32_encoding(x: u32) -> Seq<u8> {
    spec_u32_to_le_bytes(x)
}

pub open spec fn u32_decoding(bytes: Seq<u8>) -> Option<(u32, int)> {
    if bytes.len() >= 4 {
        Some((spec_u32_from_le_bytes(bytes.take(4)), 4))
    } else {
        None
    }
}

/// Eight bytes, the lowest first.
pub open spec fn u64_encoding(x: u64) -> Seq<u8> {
    spec_u64_to_le_bytes(x)
}

pub open spec fn u64_decoding(bytes: Seq<u8>) -> Option<(u64, int)> {
    if bytes.len() >= 8 {
        Some((spec_u64_from_le_bytes(bytes.take(8)), 8))
    } else {
        None
    }
}

/// Sixteen bytes, the lowest first.
pub open spec fn u128_encoding(x: u128) -> Seq<u8> {
    spec_u128_to_le_bytes(x)
}

pub open spec fn u128_decoding(bytes: Seq<u8>) -> Option<(u128, int)> {
    if bytes.len() >= 16 {
        Some((spec_u128_from_le_bytes(bytes.take(16)), 16))
    } else {
        None
    }
}

/// The two's complement of `i` in 64 bits.
pub open spec fn i64_bits(i: i64) -> u64 {
    if i >= 0 {
        i as u64
    } else {
        (i + 0x1_0000_0000_0000_0000) as u64
    }
}

/// The integer of which `bits` is the two's complement.
pub open spec fn bits_i64(bits: u64) -> i64 {
    if bits <= 0x7fff_ffff_ffff_ffff {
        bits as i64
    } else {
        (bits - 0x1_0000_0000_0000_0000) as i64
    }
}

/// A signed integer, as the eight bytes of its two's complement.
pub open spec fn i64_encoding(i: i64) -> Seq<u8> {
    u64_encoding(i64_bits(i))
}

pub open spec fn i64_decoding(bytes: Seq<u8>) -> Option<(i64, int)> {
    match u64_decoding(bytes) {
        Some((bits, used)) => Some((bits_i64(bits), used)),
        None => None,
    }
}

/// A size or an id, as eight bytes whatever the width of the machine.
pub open spec fn usize_encoding(x: usize) -> Seq<u8> {
    u64_encoding(x as u64)
}

/// A number that does not fit the machine is no size.
pub open spec fn usize_decoding(bytes: Seq<u8>) -> Option<(usize, int)> {
    match u64_decoding(bytes) {
        Some((x, used)) => if x <= usize::MAX {
            Some((x as usize, used))
        } else {
            None
        },
        None => None,
    }
}

/// A boolean, as one byte: zero for false, one for true.
pub open spec fn bool_encoding(b: bool) -> Seq<u8> {
    seq![if b {
        1u8
    } else {
        0u8
    }]
}

/// Any other byte is no boolean.
pub open spec fn bool_decoding(bytes: Seq<u8>) -> Option<(bool, int)> {
    if bytes.len() >= 1 && bytes[0] == 0 {
        Some((false, 1))
    } else if bytes.len() >= 1 && bytes[0] == 1 {
        Some((true, 1))
    } else {
        None
    }
}

/// Whether the length of `blob` can be written down.
pub open spec fn blob_encodable(blob: Seq<u8>) -> bool {
    blob.len() <= u64::MAX
}

/// Bytes, as their number followed by the bytes themselves.
pub open spec fn blob_encoding(blob: Seq<u8>) -> Seq<u8> {
    u64_encoding(blob.len() as u64) + blob
}

/// Fewer bytes than announced are no blob.
pub open spec fn blob_decoding(bytes: Seq<u8>) -> Option<(Seq<u8>, int)> {
    match u64_decoding(bytes) {
        Some((length, _)) => if bytes.len() - 8 >= length {
            Some((bytes.subrange(8, 8 + length), 8 + length))
        } else {
            None
        },
        None => None,
    }
}

/// Whether the length of `text` in UTF-8 can be written down.
pub open spec fn text_encodable(text: Seq<char>) -> bool {
    blob_encodable(encode_utf8(text))
}

/// Text, as the bytes of its UTF-8 form, written as a blob.
pub open spec fn text_encoding(text: Seq<char>) -> Seq<u8> {
    blob_encoding(encode_utf8(text))
}

/// A blob that is not UTF-8 is no text.
pub open spec fn text_decoding(bytes: Seq<u8>) -> Option<(Seq<char>, int)> {
    match blob_decoding(bytes) {
        Some((blob, used)) => if valid_utf8(blob) {
            Some((decode_utf8(blob), used))
        } else {
            None
        },
        None => None,
    }
}

pub proof fn lemma_u8_round_trip(x: u8, rest: Seq<u8>)
    ensures
        u8_encoding(x).len() == 1,
        u8_decoding(u8_encoding(x) + rest) == Some((x, 1int)),
{
}

pub proof fn lemma_u16_round_trip(x: u16, rest: Seq<u8>)
    ensures
        u16_encoding(x).len() == 2,
        u16_decoding(u16_encoding(x) + rest) == Some((x, 2int)),
{
    lemma_auto_spec_u16_to_from_le_bytes();
    lemma_split(u16_encoding(x), rest);
}

pub proof fn lemma_u32_round_trip(x: u32, rest: Seq<u8>)
    ensures
        u32_encoding(x).len() == 4,
        u32_decoding(u32_encoding(x) + rest) == Some((x, 4int)),
{
    lemma_auto_spec_u32_to_from_le_bytes();
    lemma_split(u32_encoding(x), rest);
}

pub proof fn lemma_u64_round_trip(x: u64, rest: Seq<u8>)
    ensures
        u64_encoding(x).len() == 8,
        u64_decoding(u64_encoding(x) + rest) == Some((x, 8int)),
{
    lemma_auto_spec_u64_to_from_le_bytes();
    lemma_split(u64_encoding(x), rest);
}

pub proof fn lemma_u128_round_trip(x: u128, rest: Seq<u8>)
    ensures
        u128_encoding(x).len() == 16,
        u128_decoding(u128_encoding(x) + rest) == Some((x, 16int)),
{
    lemma_auto_spec_u128_to_from_le_bytes();
    lemma_split(u128_encoding(x), rest);
}

pub proof fn lemma_i64_round_trip(i: i64, rest: Seq<u8>)
    ensures
        i64_encoding(i).len() == 8,
        i64_decoding(i64_encoding(i) + rest) == Some((i, 8int)),
{
    lemma_u64_round_trip(i64_bits(i), rest);
}

pub proof fn lemma_usize_round_trip(x: usize, rest: Seq<u8>)
    ensures
        usize_encoding(x).len() == 8,
        usize_decoding(usize_encoding(x) + rest) == Some((x, 8int)),
{
    lemma_u64_round_trip(x as u64, rest);
}

pub proof fn lemma_bool_round_trip(b: bool, rest: Seq<u8>)
    ensures
        bool_encoding(b).len() == 1,
        bool_decoding(bool_encoding(b) + rest) == Some((b, 1int)),
{
}

pub proof fn lemma_blob_round_trip(blob: Seq<u8>, rest: Seq<u8>)
    requires
        blob_encodable(blob),
    ensures
        blob_encoding(blob).len() == 8 + blob.len(),
        blob_decoding(blob_encoding(blob) + rest) == Some((blob, 8 + blob.len() as int)),
{
    let length = blob.len() as u64;
    lemma_u64_round_trip(length, blob + rest);
    lemma_assoc(u64_encoding(length), blob, rest);
    let all = blob_encoding(blob) + rest;
    assert(all.subrange(8, 8 + blob.len() as int) =~= blob);
}

pub proof fn lemma_text_round_trip(text: Seq<char>, rest: Seq<u8>)
    requires
        text_encodable(text),
    ensures
        text_encoding(text).len() == 8 + encode_utf8(text).len(),
        text_decoding(text_encoding(text) + rest) == Some(
            (text, 8 + encode_utf8(text).len() as int),
        ),
{
    lemma_blob_round_trip(encode_utf8(text), rest);
    encode_utf8_valid_utf8(text);
    encode_utf8_decode_utf8(text);
}

pub proof fn lemma_u16_decoded(bytes: Seq<u8>)
    ensures
        u16_decoding(bytes) matches Some((x, used)) ==> used == 2 && 2 <= bytes.len()
            && bytes.take(2) == u16_encoding(x),
{
    lemma_auto_spec_u16_to_from_le_bytes();
    if bytes.len() >= 2 {
        assert(bytes.take(2).len() == 2);
    }
}

pub proof fn lemma_u32_decoded(bytes: Seq<u8>)
    ensures
        u32_decoding(bytes) matches Some((x, used)) ==> used == 4 && 4 <= bytes.len()
            && bytes.take(4) == u32_encoding(x),
{
    lemma_auto_spec_u32_to_from_le_bytes();
    if bytes.len() >= 4 {
        assert(bytes.take(4).len() == 4);
    }
}

pub proof fn lemma_u64_decoded(bytes: Seq<u8>)
    ensures
        u64_decoding(bytes) matches Some((x, used)) ==> used == 8 && 8 <= bytes.len()
            && bytes.take(8) == u64_encoding(x),
{
    lemma_auto_spec_u64_to_from_le_bytes();
    if bytes.len() >= 8 {
        assert(bytes.take(8).len() == 8);
    }
}

pub proof fn lemma_u128_decoded(bytes: Seq<u8>)
    ensures
        u128_decoding(bytes) matches Some((x, used)) ==> used == 16 && 16 <= bytes.len()
            && bytes.take(16) == u128_encoding(x),
{
    lemma_auto_spec_u128_to_from_le_bytes();
    if bytes.len() >= 16 {
        assert(bytes.take(16).len() == 16);
    }
}

pub proof fn lemma_i64_decoded(bytes: Seq<u8>)
    ensures
        i64_decoding(bytes) matches Some((i, used)) ==> used == 8 && 8 <= bytes.len()
            && bytes.take(8) == i64_encoding(i),
{
    lemma_u64_decoded(bytes);
}

pub proof fn lemma_usize_decoded(bytes: Seq<u8>)
    ensures
        usize_decoding(bytes) matches Some((x, used)) ==> used == 8 && 8 <= bytes.len()
            && bytes.take(8) == usize_encoding(x),
{
    lemma_u64_decoded(bytes);
}

pub proof fn lemma_bool_decoded(bytes: Seq<u8>)
    ensures
        bool_decoding(bytes) matches Some((b, used)) ==> used == 1 && 1 <= bytes.len()
            && bytes.take(1) == bool_encoding(b),
{
    if bytes.len() >= 1 {
        assert(bytes.take(1) =~= seq![bytes[0]]);
    }
}

pub proof fn lemma_blob_decoded(bytes: Seq<u8>)
    ensures
        blob_decoding(bytes) matches Some((blob, used)) ==> blob_encodable(blob) && used == 8
            + blob.len() && used <= bytes.len() && bytes.take(used) == blob_encoding(blob),
{
    lemma_u64_decoded(bytes);
    if let Some((blob, used)) = blob_decoding(bytes) {
        lemma_take_more(bytes, 8, used - 8);
        assert(bytes.skip(8).take(used - 8) =~= blob);
    }
}

pub proof fn lemma_text_decoded(bytes: Seq<u8>)
    ensures
        text_decoding(bytes) matches Some((text, used)) ==> text_encodable(text) && 8 <= used
            <= bytes.len() && bytes.take(used) == text_encoding(text),
{
    lemma_blob_decoded(bytes);
    if let Some((blob, used)) = blob_decoding(bytes) {
        if valid_utf8(blob) {
            decode_utf8_encode_utf8(blob);
        }
    }
}

/// `String::from_utf8` of the standard library: the string whose UTF-8 form
/// the bytes are, or nothing where they are not UTF-8.
#[verifier::external_body]
fn string_from_utf8(bytes: Vec<u8>) -> (r: Option<String>)
    ensures
        match r {
            Some(text) => valid_utf8(bytes@) && encode_utf8(text@) == bytes@,
            None => !valid_utf8(bytes@),
        },
{
    String::from_utf8(bytes).ok()
}

pub fn put_u8(out: &mut Vec<u8>, x: u8)
    ensures
        final(out)@ == old(out)@ + u8_encoding(x),
{
    out.push(x);
    assert(out@ =~= old(out)@ + u8_encoding(x));
}

pub fn put_u16(out: &mut Vec<u8>, x: u16)
    ensures
        final(out)@ == old(out)@ + u16_encoding(x),
{
    let mut bytes = u16_to_le_bytes(x);
    out.append(&mut bytes);
}

pub fn put_u32(out: &mut Vec<u8>, x: u32)
    ensures
        final(out)@ == old(out)@ + u32_encoding(x),
{
    let mut bytes = u32_to_le_bytes(x);
    out.append(&mut bytes);
}

pub fn put_u64(out: &mut Vec<u8>, x: u64)
    ensures
        final(out)@ == old(out)@ + u64_encoding(x),
{
    let mut bytes = u64_to_le_bytes(x);
    out.append(&mut bytes);
}

pub fn put_u128(out: &mut Vec<u8>, x: u128)
    ensures
        final(out)@ == old(out)@ + u128_encoding(x),
{
    let mut bytes = u128_to_le_bytes(x);
    out.append(&mut bytes);
}

pub fn put_i64(out: &mut Vec<u8>, i: i64)
    ensures
        final(out)@ == old(out)@ + i64_encoding(i),
{
    let bits: u64 = if i >= 0 {
        i as u64
    } else {
        ((i as i128) + 0x1_0000_0000_0000_0000i128) as u64
    };
    put_u64(out, bits);
}

pub fn put_usize(out: &mut Vec<u8>, x: usize)
    ensures
        final(out)@ == old(out)@ + usize_encoding(x),
{
    put_u64(out, x as u64);
}

pub fn put_bool(out: &mut Vec<u8>, b: bool)
    ensures
        final(out)@ == old(out)@ + bool_encoding(b),
{
    out.push(if b {
        1u8
    } else {
        0u8
    });
    assert(out@ =~= old(out)@ + bool_encoding(b));
}

fn put_slice(out: &mut Vec<u8>, blob: &[u8])
    ensures
        blob_encodable(blob@),
        final(out)@ == old(out)@ + blob_encoding(blob@),
{
    put_u64(out, blob.len() as u64);
    let mut bytes = slice_to_vec(blob);
    out.append(&mut bytes);
    proof {
        lemma_assoc(old(out)@, u64_encoding(blob@.len() as u64), blob@);
    }
}

pub fn put_blob(out: &mut Vec<u8>, blob: &Vec<u8>)
    ensures
        blob_encodable(blob@),
        final(out)@ == old(out)@ + blob_encoding(blob@),
{
    put_slice(out, blob.as_slice());
}

pub fn put_text(out: &mut Vec<u8>, text: &str)
    ensures
        text_encodable(text@),
        final(out)@ == old(out)@ + text_encoding(text@),
{
    put_slice(out, text.as_bytes());
}

pub fn get_u8(bytes: &Vec<u8>, start: usize) -> (r: Option<(u8, usize)>)
    requires
        start <= bytes@.len(),
    ensures
        match u8_decoding(bytes@.skip(start as int)) {
            Some((x, used)) => r matches Some((read, end)) && read == x && end == start + used
                && end <= bytes@.len(),
            None => r is None,
        },
{
    if bytes.len() - start >= 1 {
        Some((bytes[start], start + 1))
    } else {
        None
    }
}

pub fn get_u16(bytes: &Vec<u8>, start: usize) -> (r: Option<(u16, usize)>)
    requires
        start <= bytes@.len(),
    ensures
        match u16_decoding(bytes@.skip(start as int)) {
            Some((x, used)) => r matches Some((read, end)) && read == x && end == start + used
                && end <= bytes@.len(),
            None => r is None,
        },
{
    if bytes.len() - start >= 2 {
        proof {
            lemma_skip(bytes@, start as int, 2);
        }
        let x = u16_from_le_bytes(slice_subrange(bytes.as_slice(), start, start + 2));
        Some((x, start + 2))
    } else {
        None
    }
}

pub fn get_u32(bytes: &Vec<u8>, start: usize) -> (r: Option<(u32, usize)>)
    requires
        start <= bytes@.len(),
    ensures
        match u32_decoding(bytes@.skip(start as int)) {
            Some((x, used)) => r matches Some((read, end)) && read == x && end == start + used
                && end <= bytes@.len(),
            None => r is None,
        },
{
    if bytes.len() - start >= 4 {
        proof {
            lemma_skip(bytes@, start as int, 4);
        }
        let x = u32_from_le_bytes(slice_subrange(bytes.as_slice(), start, start + 4));
        Some((x, start + 4))
    } else {
        None
    }
}

pub fn get_u64(bytes: &Vec<u8>, start: usize) -> (r: Option<(u64, usize)>)
    requires
        start <= bytes@.len(),
    ensures
        match u64_decoding(bytes@.skip(start as int)) {
            Some((x, used)) => r matches Some((read, end)) && read == x && end == start + used
                && end <= bytes@.len(),
            None => r is None,
        },
{
    if bytes.len() - start >= 8 {
        proof {
            lemma_skip(bytes@, start as int, 8);
        }
        let x = u64_from_le_bytes(slice_subrange(bytes.as_slice(), start, start + 8));
        Some((x, start + 8))
    } else {
        None
    }
}

pub fn get_u128(bytes: &Vec<u8>, start: usize) -> (r: Option<(u128, usize)>)
    requires
        start <= bytes@.len(),
    ensures
        match u128_decoding(bytes@.skip(start as int)) {
            Some((x, used)) => r matches Some((read, end)) && read == x && end == start + used
                && end <= bytes@.len(),
            None => r is None,
        },
{
    if bytes.len() - start >= 16 {
        proof {
            lemma_skip(bytes@, start as int, 16);
        }
        let x = u128_from_le_bytes(slice_subrange(bytes.as_slice(), start, start + 16));
        Some((x, start + 16))
    } else {
        None
    }
}

pub fn get_i64(bytes: &Vec<u8>, start: usize) -> (r: Option<(i64, usize)>)
    requires
        start <= bytes@.len(),
    ensures
        match i64_decoding(bytes@.skip(start as int)) {
            Some((x, used)) => r matches Some((read, end)) && read == x && end == start + used
                && end <= bytes@.len(),
            None => r is None,
        },
{
    match get_u64(bytes, start) {
        Some((bits, end)) => {
            let i: i64 = if bits <= 0x7fff_ffff_ffff_ffff {
                bits as i64
            } else {
                ((bits as i128) - 0x1_0000_0000_0000_0000i128) as i64
            };
            Some((i, end))
        },
        None => None,
    }
}

pub fn get_usize(bytes: &Vec<u8>, start: usize) -> (r: Option<(usize, usize)>)
    requires
        start <= bytes@.len(),
    ensures
        match usize_decoding(bytes@.skip(start as int)) {
            Some((x, used)) => r matches Some((read, end)) && read == x && end == start + used
                && end <= bytes@.len(),
            None => r is None,
        },
{
    match get_u64(bytes, start) {
        Some((x, end)) => {
            if x <= usize::MAX as u64 {
                Some((x as usize, end))
            } else {
                None
            }
        },
        None => None,
    }
}

pub fn get_bool(bytes: &Vec<u8>, start: usize) -> (r: Option<(bool, usize)>)
    requires
        start <= bytes@.len(),
    ensures
        match bool_decoding(bytes@.skip(start as int)) {
            Some((x, used)) => r matches Some((read, end)) && read == x && end == start + used
                && end <= bytes@.len(),
            None => r is None,
        },
{
    if bytes.len() - start >= 1 {
        let byte: u8 = bytes[start];
        if byte == 0 {
            Some((false, start + 1))
        } else if byte == 1 {
            Some((true, start + 1))
        } else {
            None
        }
    } else {
        None
    }
}

pub fn get_blob(bytes: &Vec<u8>, start: usize) -> (r: Option<(Vec<u8>, usize)>)
    requires
        start <= bytes@.len(),
    ensures
        match blob_decoding(bytes@.skip(start as int)) {
            Some((blob, used)) => r matches Some((read, end)) && read@ == blob && end == start
                + used && end <= bytes@.len(),
            None => r is None,
        },
{
    match get_u64(bytes, start) {
        Some((length, from)) => {
            if (bytes.len() - from) as u64 >= length {
                let to: usize = from + length as usize;
                proof {
                    lemma_skip(bytes@, start as int, 8 + length);
                    assert(bytes@.skip(start as int).subrange(8, 8 + length) =~= bytes@.subrange(
                        from as int,
                        to as int,
                    ));
                }
                let blob = slice_to_vec(slice_subrange(bytes.as_slice(), from, to));
                Some((blob, to))
            } else {
                None
            }
        },
        None => None,
    }
}

pub fn get_text(bytes: &Vec<u8>, start: usize) -> (r: Option<(String, usize)>)
    requires
        start <= bytes@.len(),
    ensures
        match text_decoding(bytes@.skip(start as int)) {
            Some((text, used)) => r matches Some((read, end)) && read@ == text && end == start
                + used && end <= bytes@.len(),
            None => r is None,
        },
{
    match get_blob(bytes, start) {
        Some((blob, end)) => {
            let ghost raw = blob@;
            match string_from_utf8(blob) {
                Some(text) => {
                    proof {
                        encode_utf8_decode_utf8(text@);
                    }
                    Some((text, end))
                },
                None => None,
            }
        },
        None => None,
    }
}

} // verus!
