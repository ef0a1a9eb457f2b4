//! Integers at a position of a byte sequence, and the two ways in which a
//! parcel's buffer grows: by appending, and by writing over what is there.

use crate::wire::{
    ascii_utf16le, decode_utf16le, encode_utf16le, is_ascii_text, native_u32, native_u32_bytes,
    native_u64, native_u64_bytes, read_native_i32, read_native_u32, read_native_u64, utf16_units,
    utf16le_bytes, utf16le_char, utf16le_text, write_native_i32, write_native_u32,
    write_native_u64,
};
use vstd::array::array_as_slice;
use vstd::prelude::*;
use vstd::slice::slice_subrange;

verus! {

/// `n` rounded up to a multiple of four.
pub open spec fn spec_pad_size(n: int) -> int {
    (n + 3) / 4 * 4
}

/// `n` rounded up to a multiple of four: the room that `n` bytes take in a
/// parcel.
pub fn pad_size(n: usize) -> (padded: usize)
    requires
        n <= usize::MAX - 3,
    ensures
        padded == spec_pad_size(n as int),
        padded % 4 == 0,
        n <= padded < n + 4,
{
    (n + 3) / 4 * 4
}

/// `n` zero bytes.
pub open spec fn zeros(n: int) -> Seq<u8> {
    Seq::new(n as nat, |i: int| 0u8)
}

/// `bytes` followed by zero bytes up to the next multiple of four.
pub open spec fn padded(bytes: Seq<u8>) -> Seq<u8> {
    bytes + zeros(spec_pad_size(bytes.len() as int) - bytes.len())
}

/// `data` after `bytes` were written at `pos`: what lies under them is
/// replaced, a gap between the end of `data` and `pos` is filled with zero
/// bytes, and the rest of `data` stays.
pub open spec fn overwrite(data: Seq<u8>, pos: int, bytes: Seq<u8>) -> Seq<u8> {
    Seq::new(
        if data.len() >= pos + bytes.len() { data.len() } else { (pos + bytes.len()) as nat },
        |i: int|
            if pos <= i < pos + bytes.len() {
                bytes[i - pos]
            } else if i < data.len() {
                data[i]
            } else {
                0u8
            },
    )
}

/// Whether `n` bytes can be read at `pos`.
pub open spec fn readable(bytes: Seq<u8>, pos: int, n: int) -> bool {
    0 <= pos && 0 <= n && pos + n <= bytes.len()
}

/// The `u32` in the four bytes at `pos`.
pub open spec fn u32_at(bytes: Seq<u8>, pos: int) -> u32 {
    native_u32(bytes.subrange(pos, pos + 4))
}

/// The `i32` in the four bytes at `pos`.
pub open spec fn i32_at(bytes: Seq<u8>, pos: int) -> i32 {
    #[verifier::truncate]
    (u32_at(bytes, pos) as i32)
}

/// The `u64` in the eight bytes at `pos`.
pub open spec fn u64_at(bytes: Seq<u8>, pos: int) -> u64 {
    native_u64(bytes.subrange(pos, pos + 8))
}

/// The bytes of an `i32`: those of the `u32` with the same bits.
pub open spec fn native_i32_bytes(value: i32) -> Seq<u8> {
    native_u32_bytes(#[verifier::truncate] (value as u32))
}

/// An `i32` cast to `u32` and back is itself.
pub proof fn lemma_i32_through_u32(value: i32)
    ensures
        (#[verifier::truncate] ((#[verifier::truncate] (value as u32)) as i32)) == value,
{
    assert((#[verifier::truncate] ((#[verifier::truncate] (value as u32)) as i32)) == value)
        by (bit_vector);
}

/// Reads the `u32` in the four bytes at `pos`.
pub fn get_u32(data: &[u8], pos: usize) -> (r: u32)
    requires
        pos + 4 <= data.len(),
    ensures
        r == u32_at(data@, pos as int),
{
    let window = slice_subrange(data, pos, pos + 4);
    proof {
        assert(window@.subrange(0, 4) =~= data@.subrange(pos as int, pos + 4));
    }
    read_native_u32(window)
}

/// Reads the `i32` in the four bytes at `pos`.
pub fn get_i32(data: &[u8], pos: usize) -> (r: i32)
    requires
        pos + 4 <= data.len(),
    ensures
        r == i32_at(data@, pos as int),
{
    let window = slice_subrange(data, pos, pos + 4);
    proof {
        assert(window@.subrange(0, 4) =~= data@.subrange(pos as int, pos + 4));
    }
    read_native_i32(window)
}

/// Reads the `u64` in the eight bytes at `pos`.
pub fn get_u64(data: &[u8], pos: usize) -> (r: u64)
    requires
        pos + 8 <= data.len(),
    ensures
        r == u64_at(data@, pos as int),
{
    let window = slice_subrange(data, pos, pos + 8);
    proof {
        assert(window@.subrange(0, 8) =~= data@.subrange(pos as int, pos + 8));
    }
    read_native_u64(window)
}

/// Appends the four bytes of `value`. Read back, they give `value`.
pub fn put_u32(out: &mut Vec<u8>, value: u32)
    ensures
        final(out)@ == old(out)@ + native_u32_bytes(value),
        native_u32_bytes(value).len() == 4,
        native_u32(native_u32_bytes(value)) == value,
{
    let bytes = write_native_u32(value);
    out.extend_from_slice(array_as_slice(&bytes));
}

/// Appends the four bytes of `value`. Read back, they give `value`.
pub fn put_i32(out: &mut Vec<u8>, value: i32)
    ensures
        final(out)@ == old(out)@ + native_i32_bytes(value),
        native_i32_bytes(value).len() == 4,
        i32_at(native_i32_bytes(value), 0) == value,
{
    let bytes = write_native_i32(value);
    proof {
        lemma_i32_through_u32(value);
        assert(bytes@.subrange(0, 4) =~= bytes@);
    }
    out.extend_from_slice(array_as_slice(&bytes));
}

/// Appends the eight bytes of `value`. Read back, they give `value`.
pub fn put_u64(out: &mut Vec<u8>, value: u64)
    ensures
        final(out)@ == old(out)@ + native_u64_bytes(value),
        native_u64_bytes(value).len() == 8,
        native_u64(native_u64_bytes(value)) == value,
{
    let bytes = write_native_u64(value);
    out.extend_from_slice(array_as_slice(&bytes));
}

/// Appends `n` zero bytes.
pub fn put_zeros(out: &mut Vec<u8>, n: usize)
    ensures
        final(out)@ == old(out)@ + zeros(n as int),
{
    let mut i: usize = 0;
    while i < n
        invariant
            i <= n,
            out@ == old(out)@ + zeros(i as int),
        decreases n - i,
    {
        out.push(0u8);
        i += 1;
        proof {
            assert(out@ =~= old(out)@ + zeros(i as int));
        }
    }
}

/// Writes `bytes` into `data` at `pos`, over what is there and past its end.
pub fn write_at(data: &mut Vec<u8>, pos: usize, bytes: &[u8])
    requires
        pos + bytes@.len() <= usize::MAX,
    ensures
        final(data)@ == overwrite(old(data)@, pos as int, bytes@),
{
    while data.len() < pos
        invariant
            data@.len() == old(data)@.len() || data@.len() <= pos,
            data@.len() >= old(data)@.len(),
            forall|i: int| 0 <= i < old(data)@.len() ==> data@[i] == old(data)@[i],
            forall|i: int| old(data)@.len() <= i < data@.len() ==> data@[i] == 0u8,
        decreases pos - data.len(),
    {
        data.push(0u8);
    }
    let ghost filled = data@;
    let mut i: usize = 0;
    while i < bytes.len()
        invariant
            i <= bytes@.len(),
            pos + bytes@.len() <= usize::MAX,
            filled.len() >= pos,
            filled.len() == old(data)@.len() || filled.len() == pos,
            filled.len() >= old(data)@.len(),
            forall|k: int| 0 <= k < old(data)@.len() ==> #[trigger] filled[k] == old(data)@[k],
            forall|k: int| old(data)@.len() <= k < filled.len() ==> #[trigger] filled[k] == 0u8,
            data@.len() == (if filled.len() >= pos + i { filled.len() } else { (pos + i) as nat }),
            forall|k: int| pos <= k < pos + i ==> #[trigger] data@[k] == bytes@[k - pos],
            forall|k: int| 0 <= k < pos ==> #[trigger] data@[k] == filled[k],
            forall|k: int| pos + i <= k < filled.len() ==> #[trigger] data@[k] == filled[k],
        decreases bytes@.len() - i,
    {
        if pos + i < data.len() {
            data[pos + i] = bytes[i];
        } else {
            data.push(bytes[i]);
        }
        i += 1;
    }
    proof {
        let want = overwrite(old(data)@, pos as int, bytes@);
        assert(i == bytes@.len());
        assert(data@.len() == want.len());
        assert forall|k: int| 0 <= k < want.len() implies data@[k] == want[k] by {
            if k < pos {
                assert(data@[k] == filled[k]);
            } else if k < pos + bytes@.len() {
                assert(data@[k] == bytes@[k - pos]);
            } else {
                assert(data@[k] == filled[k]);
            }
        }
        assert(data@ =~= want);
    }
}

/// The text that bytes in UTF-16LE stand for: the ASCII text whose form
/// they are, if they are one, and whatever the decoder makes of them
/// otherwise.
pub open spec fn utf16le_decoded(bytes: Seq<u8>) -> Seq<char> {
    if exists|text: Seq<char>| is_ascii_text(text) && ascii_utf16le(text) == bytes {
        choose|text: Seq<char>| is_ascii_text(text) && ascii_utf16le(text) == bytes
    } else {
        utf16le_text(bytes)
    }
}

/// The UTF-16LE form of an ASCII text belongs to no other ASCII text.
pub proof fn lemma_ascii_utf16le_injective(a: Seq<char>, b: Seq<char>)
    requires
        is_ascii_text(a),
        is_ascii_text(b),
        ascii_utf16le(a) == ascii_utf16le(b),
    ensures
        a == b,
{
    assert(ascii_utf16le(a).len() == 2 * a.len());
    assert(ascii_utf16le(b).len() == 2 * b.len());
    assert forall|i: int| 0 <= i < a.len() implies a[i] == b[i] by {
        let x: u32 = a[i] as u32;
        let y: u32 = b[i] as u32;
        assert(x < 0x80 && y < 0x80);
        assert((2 * i) % 2 == 0 && (2 * i) / 2 == i);
        assert(ascii_utf16le(a)[2 * i] == x);
        assert(ascii_utf16le(b)[2 * i] == y);
        vstd::utf8::char_u32_cast(a[i], x);
        vstd::utf8::char_u32_cast(b[i], y);
    }
    assert(a =~= b);
}

/// Decoding the UTF-16LE form of an ASCII text gives the text.
pub proof fn lemma_ascii_round_trip(text: Seq<char>)
    requires
        is_ascii_text(text),
    ensures
        utf16le_decoded(ascii_utf16le(text)) == text,
{
    let bytes = ascii_utf16le(text);
    let found = choose|t: Seq<char>| is_ascii_text(t) && ascii_utf16le(t) == bytes;
    lemma_ascii_utf16le_injective(found, text);
}

/// An ASCII text takes one UTF-16 unit for each character.
pub proof fn lemma_ascii_units(text: Seq<char>)
    requires
        is_ascii_text(text),
    ensures
        utf16_units(text) == text.len(),
    decreases text.len(),
{
    if text.len() > 0 {
        assert((text[text.len() - 1] as u32) < 0x80);
        assert(text.drop_last().len() == text.len() - 1);
        assert forall|i: int| 0 <= i < text.drop_last().len() implies (
        #[trigger] text.drop_last()[i] as u32) < 0x80 by {
            assert(text.drop_last()[i] == text[i]);
        }
        lemma_ascii_units(text.drop_last());
    }
}

/// The UTF-16LE form of a text takes two bytes for each of its units.
pub proof fn lemma_utf16le_len(text: Seq<char>)
    ensures
        utf16le_bytes(text).len() == 2 * utf16_units(text),
    decreases text.len(),
{
    if text.len() > 0 {
        lemma_utf16le_len(text.drop_last());
    }
}

/// A character below U+0080 is written as its code and a zero byte.
pub proof fn lemma_utf16le_ascii_char(c: char)
    requires
        (c as u32) < 0x80,
    ensures
        utf16le_char(c) == seq![#[verifier::truncate] ((c as u32) as u8), 0u8],
{
    let ch: u32 = c as u32;
    assert(ch < 0x80 ==> (ch & 0xff) == ch && (ch >> 8) == 0) by (bit_vector);
    assert(utf16le_char(c) =~= seq![#[verifier::truncate] (ch as u8), 0u8]);
}

/// The UTF-16LE form of an ASCII text is each character's code followed by
/// a zero byte.
pub proof fn lemma_utf16le_ascii(text: Seq<char>)
    requires
        is_ascii_text(text),
    ensures
        utf16le_bytes(text) == ascii_utf16le(text),
    decreases text.len(),
{
    if text.len() == 0 {
        assert(utf16le_bytes(text) =~= ascii_utf16le(text));
    } else {
        let front = text.drop_last();
        let n = front.len() as int;
        assert((text[n] as u32) < 0x80);
        assert forall|i: int| 0 <= i < front.len() implies (#[trigger] front[i] as u32) < 0x80 by {
            assert(front[i] == text[i]);
        }
        lemma_utf16le_ascii(front);
        lemma_utf16le_ascii_char(text.last());
        let whole = ascii_utf16le(front) + utf16le_char(text.last());
        assert(whole.len() == 2 * text.len());
        assert forall|i: int| 0 <= i < whole.len() implies whole[i] == ascii_utf16le(text)[i] by {
            if i < 2 * n {
                assert(whole[i] == ascii_utf16le(front)[i]);
                assert(front[i / 2] == text[i / 2]);
            } else {
                assert(whole[i] == utf16le_char(text.last())[i - 2 * n]);
                assert(i / 2 == n);
            }
        }
        assert(whole =~= ascii_utf16le(text));
    }
}

/// The text in UTF-16LE: two bytes for each unit, and for an ASCII text each
/// character's code followed by a zero byte.
pub fn encode_string16(text: &str) -> (r: Vec<u8>)
    ensures
        r@ == utf16le_bytes(text@),
        r@.len() == 2 * utf16_units(text@),
        is_ascii_text(text@) ==> r@ == ascii_utf16le(text@),
{
    let r = encode_utf16le(text);
    proof {
        lemma_utf16le_len(text@);
        if is_ascii_text(text@) {
            lemma_utf16le_ascii(text@);
        }
    }
    r
}

/// The text that the bytes stand for in UTF-16LE.
pub fn decode_string16(bytes: &[u8]) -> (r: String)
    ensures
        r@ == utf16le_decoded(bytes@),
{
    let text = decode_utf16le(bytes);
    proof {
        if exists|t: Seq<char>| is_ascii_text(t) && ascii_utf16le(t) == bytes@ {
            let found = choose|t: Seq<char>| is_ascii_text(t) && ascii_utf16le(t) == bytes@;
            assert(is_ascii_text(found) && bytes@ == ascii_utf16le(found));
        }
    }
    text
}

} // verus!
