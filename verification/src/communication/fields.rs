//! How the values inside a document's body are laid out in bytes.
//!
//! A number takes eight bytes, least significant first. A point in time is
//! a number, moved up by 2^63 so that none is negative. A run of bytes is
//! its length in four bytes, least significant first, and then the bytes.
//! A text is the run of its bytes in UTF-8.

use crate::text::text_from_utf8;
use vstd::bytes::*;
use vstd::prelude::*;
use vstd::slice::*;
use vstd::string::*;
use vstd::utf8::*;

verus! {

/// How far a point in time is moved up on the wire.
pub open spec fn time_shift() -> int {
    0x8000_0000_0000_0000
}

pub open spec fn length_bytes(length: u32) -> Seq<u8> {
    spec_u32_to_le_bytes(length)
}

pub open spec fn number_bytes(number: u64) -> Seq<u8> {
    spec_u64_to_le_bytes(number)
}

pub open spec fn time_bytes(time: i64) -> Seq<u8> {
    number_bytes((time + time_shift()) as u64)
}

pub open spec fn blob_bytes(blob: Seq<u8>) -> Seq<u8> {
    length_bytes(blob.len() as u32) + blob
}

pub open spec fn text_bytes(text: Seq<char>) -> Seq<u8> {
    blob_bytes(encode_utf8(text))
}

/// The length that stands at `at`, with the place behind it.
pub open spec fn length_at(bytes: Seq<u8>, at: int) -> Option<(u32, int)> {
    if 0 <= at && at + 4 <= bytes.len() {
        Some((spec_u32_from_le_bytes(bytes.subrange(at, at + 4)), at + 4))
    } else {
        None
    }
}

/// The number that stands at `at`, with the place behind it.
pub open spec fn number_at(bytes: Seq<u8>, at: int) -> Option<(u64, int)> {
    if 0 <= at && at + 8 <= bytes.len() {
        Some((spec_u64_from_le_bytes(bytes.subrange(at, at + 8)), at + 8))
    } else {
        None
    }
}

/// The number at `at` as a count or an id of this machine, where it fits.
pub open spec fn index_at(bytes: Seq<u8>, at: int) -> Option<(usize, int)> {
    match number_at(bytes, at) {
        Some((number, next)) => if number <= usize::MAX {
            Some((number as usize, next))
        } else {
            None
        },
        None => None,
    }
}

/// The point in time that stands at `at`, with the place behind it.
pub open spec fn time_at(bytes: Seq<u8>, at: int) -> Option<(i64, int)> {
    match number_at(bytes, at) {
        Some((number, next)) => Some(((number - time_shift()) as i64, next)),
        None => None,
    }
}

/// The run of bytes that stands at `at`, with the place behind it.
pub open spec fn blob_at(bytes: Seq<u8>, at: int) -> Option<(Seq<u8>, int)> {
    match length_at(bytes, at) {
        Some((length, start)) => if start + length <= bytes.len() {
            Some((bytes.subrange(start, start + length), start + length))
        } else {
            None
        },
        None => None,
    }
}

/// The text that stands at `at`, with the place behind it.
pub open spec fn text_at(bytes: Seq<u8>, at: int) -> Option<(Seq<char>, int)> {
    match blob_at(bytes, at) {
        Some((blob, next)) => if valid_utf8(blob) {
            Some((decode_utf8(blob), next))
        } else {
            None
        },
        None => None,
    }
}

/// A length that was written is read back.
pub proof fn lemma_length_at(bytes: Seq<u8>, at: int, length: u32)
    requires
        0 <= at,
        at + 4 <= bytes.len(),
        bytes.subrange(at, at + 4) == length_bytes(length),
    ensures
        length_at(bytes, at) == Some((length, at + 4)),
{
    lemma_auto_spec_u32_to_from_le_bytes();
    assert(spec_u32_to_le_bytes(length).len() == 4);
    assert(spec_u32_from_le_bytes(spec_u32_to_le_bytes(length)) == length);
}

/// A number that was written is read back.
pub proof fn lemma_number_at(bytes: Seq<u8>, at: int, number: u64)
    requires
        0 <= at,
        at + 8 <= bytes.len(),
        bytes.subrange(at, at + 8) == number_bytes(number),
    ensures
        number_at(bytes, at) == Some((number, at + 8)),
{
    lemma_auto_spec_u64_to_from_le_bytes();
}

/// A count or an id that was written is read back.
pub proof fn lemma_index_at(bytes: Seq<u8>, at: int, index: usize)
    requires
        0 <= at,
        at + 8 <= bytes.len(),
        bytes.subrange(at, at + 8) == number_bytes(index as u64),
    ensures
        index_at(bytes, at) == Some((index, at + 8)),
{
    lemma_number_at(bytes, at, index as u64);
}

/// A point in time that was written is read back.
pub proof fn lemma_time_at(bytes: Seq<u8>, at: int, time: i64)
    requires
        0 <= at,
        at + 8 <= bytes.len(),
        bytes.subrange(at, at + 8) == time_bytes(time),
    ensures
        time_at(bytes, at) == Some((time, at + 8)),
{
    lemma_number_at(bytes, at, (time + time_shift()) as u64);
}

/// A run of bytes that was written is read back.
pub proof fn lemma_blob_at(bytes: Seq<u8>, at: int, blob: Seq<u8>)
    requires
        0 <= at,
        blob.len() <= u32::MAX,
        at + 4 + blob.len() <= bytes.len(),
        bytes.subrange(at, at + 4 + blob.len()) == blob_bytes(blob),
    ensures
        blob_at(bytes, at) == Some((blob, at + 4 + blob.len())),
{
    lemma_auto_spec_u32_to_from_le_bytes();
    let written = blob_bytes(blob);
    assert(bytes.subrange(at, at + 4) =~= written.subrange(0, 4));
    assert(written.subrange(0, 4) =~= length_bytes(blob.len() as u32));
    lemma_length_at(bytes, at, blob.len() as u32);
    let end = 4 + blob.len() as int;
    assert(bytes.subrange(at + 4, at + end) =~= written.subrange(4, end));
    assert(written.subrange(4, end) =~= blob);
}

/// A text that was written is read back.
pub proof fn lemma_text_at(bytes: Seq<u8>, at: int, text: Seq<char>)
    requires
        0 <= at,
        encode_utf8(text).len() <= u32::MAX,
        at + 4 + encode_utf8(text).len() <= bytes.len(),
        bytes.subrange(at, at + 4 + encode_utf8(text).len()) == text_bytes(text),
    ensures
        text_at(bytes, at) == Some((text, at + 4 + encode_utf8(text).len())),
{
    lemma_blob_at(bytes, at, encode_utf8(text));
    encode_utf8_valid_utf8(text);
    encode_utf8_decode_utf8(text);
}

/// How many bytes each kind of value takes.
pub proof fn lemma_sizes(text: Seq<char>, blob: Seq<u8>, number: u64, time: i64)
    ensures
        text_bytes(text).len() == 4 + encode_utf8(text).len(),
        blob_bytes(blob).len() == 4 + blob.len(),
        number_bytes(number).len() == 8,
        time_bytes(time).len() == 8,
{
    lemma_auto_spec_u32_to_from_le_bytes();
    lemma_auto_spec_u64_to_from_le_bytes();
    assert(length_bytes(encode_utf8(text).len() as u32).len() == 4);
    assert(length_bytes(blob.len() as u32).len() == 4);
    assert(spec_u64_to_le_bytes(number).len() == 8);
    assert(spec_u64_to_le_bytes((time + time_shift()) as u64).len() == 8);
}

/// A text that stands between two runs of bytes is read back from where the
/// first run ends.
pub proof fn lemma_text_piece(bytes: Seq<u8>, before: Seq<u8>, text: Seq<char>, after: Seq<u8>)
    requires
        bytes == before + text_bytes(text) + after,
        encode_utf8(text).len() <= u32::MAX,
    ensures
        text_bytes(text).len() == 4 + encode_utf8(text).len(),
        text_at(bytes, before.len() as int) == Some(
            (text, (before.len() + 4 + encode_utf8(text).len()) as int),
        ),
{
    lemma_auto_spec_u32_to_from_le_bytes();
    let at = before.len() as int;
    let piece = text_bytes(text);
    assert(length_bytes(encode_utf8(text).len() as u32).len() == 4);
    assert(bytes.subrange(at, at + piece.len()) =~= piece);
    lemma_text_at(bytes, at, text);
}

/// A run of bytes that stands between two others is read back from where
/// the first ends.
pub proof fn lemma_blob_piece(bytes: Seq<u8>, before: Seq<u8>, blob: Seq<u8>, after: Seq<u8>)
    requires
        bytes == before + blob_bytes(blob) + after,
        blob.len() <= u32::MAX,
    ensures
        blob_bytes(blob).len() == 4 + blob.len(),
        blob_at(bytes, before.len() as int) == Some(
            (blob, (before.len() + 4 + blob.len()) as int),
        ),
{
    lemma_auto_spec_u32_to_from_le_bytes();
    let at = before.len() as int;
    let piece = blob_bytes(blob);
    assert(length_bytes(blob.len() as u32).len() == 4);
    assert(bytes.subrange(at, at + piece.len()) =~= piece);
    lemma_blob_at(bytes, at, blob);
}

/// A count or an id that stands between two runs of bytes is read back from
/// where the first run ends.
pub proof fn lemma_index_piece(bytes: Seq<u8>, before: Seq<u8>, index: usize, after: Seq<u8>)
    requires
        bytes == before + number_bytes(index as u64) + after,
    ensures
        number_bytes(index as u64).len() == 8,
        index_at(bytes, before.len() as int) == Some(
            (index, (before.len() + 8) as int),
        ),
{
    lemma_auto_spec_u64_to_from_le_bytes();
    let at = before.len() as int;
    let piece = number_bytes(index as u64);
    assert(piece.len() == 8);
    assert(bytes.subrange(at, at + 8) =~= piece);
    lemma_index_at(bytes, at, index);
}

/// A point in time that stands between two runs of bytes is read back from
/// where the first run ends.
pub proof fn lemma_time_piece(bytes: Seq<u8>, before: Seq<u8>, time: i64, after: Seq<u8>)
    requires
        bytes == before + time_bytes(time) + after,
    ensures
        time_bytes(time).len() == 8,
        time_at(bytes, before.len() as int) == Some(
            (time, (before.len() + 8) as int),
        ),
{
    lemma_auto_spec_u64_to_from_le_bytes();
    let at = before.len() as int;
    let piece = time_bytes(time);
    assert(piece.len() == 8);
    assert(bytes.subrange(at, at + 8) =~= piece);
    lemma_time_at(bytes, at, time);
}

/// Writes a length of four bytes behind what `out` holds.
pub fn put_length(out: &mut Vec<u8>, length: u32)
    ensures
        final(out)@ == old(out)@ + length_bytes(length),
        length_bytes(length).len() == 4,
{
    let bytes = u32_to_le_bytes(length);
    out.extend_from_slice(bytes.as_slice());
}

/// Writes a number behind what `out` holds.
pub fn put_number(out: &mut Vec<u8>, number: u64)
    ensures
        final(out)@ == old(out)@ + number_bytes(number),
        number_bytes(number).len() == 8,
{
    let bytes = u64_to_le_bytes(number);
    out.extend_from_slice(bytes.as_slice());
}

/// Writes a count or an id behind what `out` holds.
pub fn put_index(out: &mut Vec<u8>, index: usize)
    ensures
        final(out)@ == old(out)@ + number_bytes(index as u64),
        number_bytes(index as u64).len() == 8,
{
    put_number(out, index as u64);
}

/// Writes a point in time behind what `out` holds.
pub fn put_time(out: &mut Vec<u8>, time: i64)
    ensures
        final(out)@ == old(out)@ + time_bytes(time),
        time_bytes(time).len() == 8,
{
    let moved: i128 = time as i128 + 0x8000_0000_0000_0000i128;
    put_number(out, moved as u64);
}

/// Writes a run of bytes behind what `out` holds, unless it is too long for
/// a length of four bytes: then `out` stays as it is.
pub fn put_blob(out: &mut Vec<u8>, blob: &[u8]) -> (written: bool)
    ensures
        written == (blob@.len() <= u32::MAX),
        written ==> final(out)@ == old(out)@ + blob_bytes(blob@),
        !written ==> final(out)@ == old(out)@,
        blob_bytes(blob@).len() == 4 + blob@.len(),
{
    proof {
        lemma_auto_spec_u32_to_from_le_bytes();
    }
    if blob.len() > 0xffff_ffff {
        return false;
    }
    put_length(out, blob.len() as u32);
    out.extend_from_slice(blob);
    assert(out@ =~= old(out)@ + blob_bytes(blob@));
    true
}

/// Writes a text behind what `out` holds, unless it is too long for a length
/// of four bytes: then `out` stays as it is.
pub fn put_text(out: &mut Vec<u8>, text: &str) -> (written: bool)
    ensures
        written == (encode_utf8(text@).len() <= u32::MAX),
        written ==> final(out)@ == old(out)@ + text_bytes(text@),
        !written ==> final(out)@ == old(out)@,
        text_bytes(text@).len() == 4 + encode_utf8(text@).len(),
{
    put_blob(out, text.as_bytes())
}

/// Reads the length at `at`.
pub fn take_length(bytes: &[u8], at: usize) -> (taken: Option<(u32, usize)>)
    ensures
        match taken {
            Some((length, next)) => length_at(bytes@, at as int) == Some((length, next as int)),
            None => length_at(bytes@, at as int) is None,
        },
{
    if bytes.len() < 4 || at > bytes.len() - 4 {
        return None;
    }
    let length = u32_from_le_bytes(slice_subrange(bytes, at, at + 4));
    Some((length, at + 4))
}

/// Reads the number at `at`.
pub fn take_number(bytes: &[u8], at: usize) -> (taken: Option<(u64, usize)>)
    ensures
        match taken {
            Some((number, next)) => number_at(bytes@, at as int) == Some((number, next as int)),
            None => number_at(bytes@, at as int) is None,
        },
{
    if bytes.len() < 8 || at > bytes.len() - 8 {
        return None;
    }
    let number = u64_from_le_bytes(slice_subrange(bytes, at, at + 8));
    Some((number, at + 8))
}

/// Reads the count or id at `at`.
pub fn take_index(bytes: &[u8], at: usize) -> (taken: Option<(usize, usize)>)
    ensures
        match taken {
            Some((index, next)) => index_at(bytes@, at as int) == Some((index, next as int)),
            None => index_at(bytes@, at as int) is None,
        },
{
    match take_number(bytes, at) {
        Some((number, next)) => {
            if number <= usize::MAX as u64 {
                Some((number as usize, next))
            } else {
                None
            }
        },
        None => None,
    }
}

/// Reads the point in time at `at`.
pub fn take_time(bytes: &[u8], at: usize) -> (taken: Option<(i64, usize)>)
    ensures
        match taken {
            Some((time, next)) => time_at(bytes@, at as int) == Some((time, next as int)),
            None => time_at(bytes@, at as int) is None,
        },
{
    match take_number(bytes, at) {
        Some((number, next)) => {
            let moved: i128 = number as i128 - 0x8000_0000_0000_0000i128;
            Some((moved as i64, next))
        },
        None => None,
    }
}

/// Reads the run of bytes at `at`.
pub fn take_blob(bytes: &[u8], at: usize) -> (taken: Option<(Vec<u8>, usize)>)
    ensures
        match taken {
            Some((blob, next)) => blob_at(bytes@, at as int) == Some((blob@, next as int)),
            None => blob_at(bytes@, at as int) is None,
        },
{
    match take_length(bytes, at) {
        Some((length, start)) => {
            if length as u64 > (bytes.len() - start) as u64 {
                return None;
            }
            let end = start + length as usize;
            let blob = slice_to_vec(slice_subrange(bytes, start, end));
            Some((blob, end))
        },
        None => None,
    }
}

/// Reads the text at `at`.
pub fn take_text(bytes: &[u8], at: usize) -> (taken: Option<(String, usize)>)
    ensures
        match taken {
            Some((text, next)) => text_at(bytes@, at as int) == Some((text@, next as int)),
            None => text_at(bytes@, at as int) is None,
        },
{
    match take_length(bytes, at) {
        Some((length, start)) => {
            if length as u64 > (bytes.len() - start) as u64 {
                return None;
            }
            let end = start + length as usize;
            match text_from_utf8(slice_subrange(bytes, start, end)) {
                Some(text) => Some((text, end)),
                None => None,
            }
        },
        None => None,
    }
}

} // verus!
