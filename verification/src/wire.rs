//! Byte-level conversions that the codec takes from `byteorder` and
//! `encoding`. Nothing in this file is proved: each function states what the
//! outside crate does, and the rest of the library is verified against that.

use byteorder::{ByteOrder, NativeEndian};
use encoding::codec::utf_16::UTF_16LE_ENCODING;
use encoding::{DecoderTrap, EncoderTrap, Encoding};
use vstd::prelude::*;

verus! {

/// The `u32` that `byteorder::NativeEndian::read_u32` makes of four bytes.
pub uninterp spec fn native_u32(bytes: Seq<u8>) -> u32;

/// The four bytes that `byteorder::NativeEndian::write_u32` makes of a `u32`.
pub uninterp spec fn native_u32_bytes(value: u32) -> Seq<u8>;

/// The `u64` that `byteorder::NativeEndian::read_u64` makes of eight bytes.
pub uninterp spec fn native_u64(bytes: Seq<u8>) -> u64;

/// The eight bytes that `byteorder::NativeEndian::write_u64` makes of a `u64`.
pub uninterp spec fn native_u64_bytes(value: u64) -> Seq<u8>;

/// The text that `UTF_16LE_ENCODING.decode` makes of bytes, with U+FFFD in
/// place of every sequence that is not UTF-16.
pub uninterp spec fn utf16le_text(bytes: Seq<u8>) -> Seq<char>;

/// The UTF-16LE form of one character. A character below U+10000 is one
/// unit, its code; any other is two units, the surrogates made of the code
/// less 0x10000: the first holds its high ten bits under the mark 0xD800,
/// the second its low ten bits under the mark 0xDC00. Each unit is written
/// low byte first.
pub open spec fn utf16le_char(c: char) -> Seq<u8> {
    let ch = c as u32;
    if ch < 0x10000 {
        seq![
            #[verifier::truncate]
            ((ch & 0xff) as u8),
            #[verifier::truncate]
            ((ch >> 8) as u8),
        ]
    } else {
        let v = (ch - 0x10000) as u32;
        seq![
            #[verifier::truncate]
            (((v >> 10) & 0xff) as u8),
            #[verifier::truncate]
            ((0xd8 | (v >> 18)) as u8),
            #[verifier::truncate]
            ((v & 0xff) as u8),
            #[verifier::truncate]
            ((0xdc | ((v >> 8) & 0x3)) as u8),
        ]
    }
}

/// The UTF-16LE form of a text: the forms of its characters, one after the
/// other.
pub open spec fn utf16le_bytes(text: Seq<char>) -> Seq<u8>
    decreases text.len(),
{
    if text.len() == 0 {
        Seq::empty()
    } else {
        utf16le_bytes(text.drop_last()) + utf16le_char(text.last())
    }
}

/// Whether every character of `text` is below U+0080.
pub open spec fn is_ascii_text(text: Seq<char>) -> bool {
    forall|i: int| 0 <= i < text.len() ==> (#[trigger] text[i] as u32) < 0x80
}

/// The UTF-16LE form of an ASCII text: each character's code in one byte,
/// followed by a zero byte.
pub open spec fn ascii_utf16le(text: Seq<char>) -> Seq<u8> {
    Seq::new(
        2 * text.len(),
        |i: int|
            if i % 2 == 0 {
                #[verifier::truncate]
                ((text[i / 2] as u32) as u8)
            } else {
                0u8
            },
    )
}

/// The number of 16-bit units that UTF-16 takes for `text`: one for a
/// character below U+10000, two for any other.
pub open spec fn utf16_units(text: Seq<char>) -> nat
    decreases text.len(),
{
    if text.len() == 0 {
        0
    } else {
        utf16_units(text.drop_last()) + if (text.last() as u32) < 0x10000 { 1nat } else { 2nat }
    }
}

/// `byteorder::NativeEndian::read_u32` on the first four bytes of `buf`.
/// It panics on a shorter slice, which `requires` leaves out.
#[verifier::external_body]
pub(crate) fn read_native_u32(buf: &[u8]) -> (r: u32)
    requires
        buf@.len() >= 4,
    ensures
        r == native_u32(buf@.subrange(0, 4)),
{
    NativeEndian::read_u32(buf)
}

/// `byteorder::NativeEndian::read_i32`, which the crate defines as `read_u32`
/// followed by a cast.
#[verifier::external_body]
pub(crate) fn read_native_i32(buf: &[u8]) -> (r: i32)
    requires
        buf@.len() >= 4,
    ensures
        r == native_u32(buf@.subrange(0, 4)) as i32,
{
    NativeEndian::read_i32(buf)
}

/// `byteorder::NativeEndian::read_u64` on the first eight bytes of `buf`.
#[verifier::external_body]
pub(crate) fn read_native_u64(buf: &[u8]) -> (r: u64)
    requires
        buf@.len() >= 8,
    ensures
        r == native_u64(buf@.subrange(0, 8)),
{
    NativeEndian::read_u64(buf)
}

/// `byteorder::NativeEndian::write_u32` into a fresh buffer of four bytes.
/// Reading the buffer back gives the value written.
#[verifier::external_body]
pub(crate) fn write_native_u32(value: u32) -> (r: [u8; 4])
    ensures
        r@ == native_u32_bytes(value),
        native_u32(r@) == value,
{
    let mut buf = [0u8; 4];
    NativeEndian::write_u32(&mut buf, value);
    buf
}

/// `byteorder::NativeEndian::write_i32`, which the crate defines as a cast
/// followed by `write_u32`.
#[verifier::external_body]
pub(crate) fn write_native_i32(value: i32) -> (r: [u8; 4])
    ensures
        r@ == native_u32_bytes(value as u32),
        native_u32(r@) == value as u32,
{
    let mut buf = [0u8; 4];
    NativeEndian::write_i32(&mut buf, value);
    buf
}

/// `byteorder::NativeEndian::write_u64` into a fresh buffer of eight bytes.
#[verifier::external_body]
pub(crate) fn write_native_u64(value: u64) -> (r: [u8; 8])
    ensures
        r@ == native_u64_bytes(value),
        native_u64(r@) == value,
{
    let mut buf = [0u8; 8];
    NativeEndian::write_u64(&mut buf, value);
    buf
}

/// `UTF_16LE_ENCODING.encode` with `EncoderTrap::Replace`. Every character has
/// a UTF-16 form, so the call never fails and the trap is never sprung. The
/// encoder takes the characters in turn and writes for each what
/// `utf16le_char` says.
#[verifier::external_body]
pub(crate) fn encode_utf16le(text: &str) -> (r: Vec<u8>)
    ensures
        r@ == utf16le_bytes(text@),
{
    match UTF_16LE_ENCODING.encode(text, EncoderTrap::Replace) {
        Ok(bytes) => bytes,
        Err(_) => Vec::new(),
    }
}

/// `UTF_16LE_ENCODING.decode` with `DecoderTrap::Replace`, which never fails.
/// Units below U+D800 decode to the character of that code, so the UTF-16LE
/// form of an ASCII text decodes to that text.
#[verifier::external_body]
pub(crate) fn decode_utf16le(bytes: &[u8]) -> (r: String)
    ensures
        r@ == utf16le_text(bytes@),
        forall|text: Seq<char>|
            is_ascii_text(text) && bytes@ == #[trigger] ascii_utf16le(text) ==> r@ == text,
{
    match UTF_16LE_ENCODING.decode(bytes, DecoderTrap::Replace) {
        Ok(text) => text,
        Err(_) => String::new(),
    }
}

} // verus!
