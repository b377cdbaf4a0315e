//! Integers and text on the wire.
//!
//! Every multi-byte integer of a stored record is written least significant
//! byte first; a text is written as the eight-byte count of its UTF-8 bytes
//! followed by those bytes. The functions here state these layouts, write and
//! read them, and prove that reading undoes writing.

use vstd::prelude::*;
use vstd::slice::{slice_subrange, slice_to_vec};
use vstd::string::*;
use vstd::utf8::*;

verus! {

/// The four bytes of `x`, least significant first.
pub open spec fn u32_bytes(x: u32) -> Seq<u8> {
    seq![
        (x % 256) as u8,
        (x / 256 % 256) as u8,
        (x / 65536 % 256) as u8,
        (x / 16777216) as u8,
    ]
}

/// The number that four little-endian bytes stand for.
pub open spec fn u32_value(b: Seq<u8>) -> u32
    recommends
        b.len() == 4,
{
    (b[0] as int + 256 * (b[1] as int) + 65536 * (b[2] as int) + 16777216 * (b[3] as int)) as u32
}

/// The eight bytes of `x`, least significant first.
pub open spec fn u64_bytes(x: u64) -> Seq<u8> {
    u32_bytes((x % 4294967296) as u32) + u32_bytes((x / 4294967296) as u32)
}

/// The number that eight little-endian bytes stand for.
pub open spec fn u64_value(b: Seq<u8>) -> u64
    recommends
        b.len() == 8,
{
    (u32_value(b.subrange(0, 4)) as int + 4294967296 * (u32_value(b.subrange(4, 8)) as int)) as u64
}

/// Reading four written bytes gives the number back.
pub proof fn lemma_u32_round_trip(x: u32)
    ensures
        u32_bytes(x).len() == 4,
        u32_value(u32_bytes(x)) == x,
{
}

/// Reading eight written bytes gives the number back.
pub proof fn lemma_u64_round_trip(x: u64)
    ensures
        u64_bytes(x).len() == 8,
        u64_value(u64_bytes(x)) == x,
{
    let lo = (x % 4294967296) as u32;
    let hi = (x / 4294967296) as u32;
    lemma_u32_round_trip(lo);
    lemma_u32_round_trip(hi);
    assert(u64_bytes(x).subrange(0, 4) =~= u32_bytes(lo));
    assert(u64_bytes(x).subrange(4, 8) =~= u32_bytes(hi));
}

/// Appends the four bytes of `x` to `out`.
pub fn put_u32(out: &mut Vec<u8>, x: u32)
    ensures
        final(out)@ == old(out)@ + u32_bytes(x),
{
    out.push((x % 256) as u8);
    out.push((x / 256 % 256) as u8);
    out.push((x / 65536 % 256) as u8);
    out.push((x / 16777216) as u8);
    assert(out@ =~= old(out)@ + u32_bytes(x));
}

/// Appends the eight bytes of `x` to `out`.
pub fn put_u64(out: &mut Vec<u8>, x: u64)
    ensures
        final(out)@ == old(out)@ + u64_bytes(x),
{
    put_u32(out, (x % 4294967296) as u32);
    put_u32(out, (x / 4294967296) as u32);
    assert(out@ =~= old(out)@ + u64_bytes(x));
}

/// Reads the four bytes that start at `at`.
pub fn get_u32(bytes: &[u8], at: usize) -> (x: u32)
    requires
        at + 4 <= bytes@.len(),
    ensures
        x == u32_value(bytes@.subrange(at as int, at + 4)),
{
    let b0: u32 = bytes[at] as u32;
    let b1: u32 = bytes[at + 1] as u32;
    let b2: u32 = bytes[at + 2] as u32;
    let b3: u32 = bytes[at + 3] as u32;
    b0 + 256 * b1 + 65536 * b2 + 16777216 * b3
}

/// Reads the eight bytes that start at `at`.
pub fn get_u64(bytes: &[u8], at: usize) -> (x: u64)
    requires
        at + 8 <= bytes@.len(),
    ensures
        x == u64_value(bytes@.subrange(at as int, at + 8)),
{
    assert(vstd::slice::spec_slice_len(bytes) == bytes@.len());
    let lo: u64 = get_u32(bytes, at) as u64;
    let hi: u64 = get_u32(bytes, at + 4) as u64;
    proof {
        let whole = bytes@.subrange(at as int, at + 8);
        assert(whole.subrange(0, 4) =~= bytes@.subrange(at as int, at + 4));
        assert(whole.subrange(4, 8) =~= bytes@.subrange(at + 4, at + 8));
    }
    lo + 4294967296 * hi
}

/// A text on the wire: the count of its UTF-8 bytes, then the bytes.
pub open spec fn text_bytes(s: Seq<char>) -> Seq<u8> {
    u64_bytes(encode_utf8(s).len() as u64) + encode_utf8(s)
}

/// Whether the UTF-8 form of `s` is short enough for its count to be written.
pub open spec fn text_fits(s: Seq<char>) -> bool {
    encode_utf8(s).len() <= u64::MAX
}

/// The text that starts at `at` in `b`, with the offset of the byte after it;
/// `None` where the count or the bytes run past the end of `b`, or the bytes
/// are not UTF-8.
pub open spec fn text_at(b: Seq<u8>, at: int) -> Option<(Seq<char>, int)> {
    if 0 <= at && at + 8 <= b.len() {
        let n = u64_value(b.subrange(at, at + 8)) as int;
        if at + 8 + n <= b.len() && valid_utf8(b.subrange(at + 8, at + 8 + n)) {
            Some((decode_utf8(b.subrange(at + 8, at + 8 + n)), at + 8 + n))
        } else {
            None
        }
    } else {
        None
    }
}

/// A written text is read back where it was written, whatever stands before
/// and after it.
pub proof fn lemma_text_round_trip(before: Seq<u8>, s: Seq<char>, after: Seq<u8>)
    requires
        text_fits(s),
    ensures
        text_bytes(s).len() == 8 + encode_utf8(s).len(),
        text_at(before + text_bytes(s) + after, before.len() as int) == Some(
            (s, (before.len() + text_bytes(s).len()) as int),
        ),
{
    let raw = encode_utf8(s);
    let n = raw.len() as u64;
    let whole = before + text_bytes(s) + after;
    let at = before.len() as int;
    lemma_u64_round_trip(n);
    assert(whole.subrange(at, at + 8) =~= u64_bytes(n));
    assert(whole.subrange(at + 8, at + 8 + n) =~= raw);
    encode_utf8_valid_utf8(s);
    encode_utf8_decode_utf8(s);
}

/// `String::from_utf8` of std: a text comes back exactly where the bytes are
/// UTF-8, and it is the text that they encode.
#[verifier::external_body]
fn string_from_utf8(bytes: Vec<u8>) -> (r: Option<String>)
    ensures
        r.is_some() == valid_utf8(bytes@),
        r.is_some() ==> r.unwrap()@ == decode_utf8(bytes@),
{
    String::from_utf8(bytes).ok()
}

/// Appends the wire form of `s` to `out`.
pub fn put_text(out: &mut Vec<u8>, s: &str)
    ensures
        text_fits(s@),
        final(out)@ == old(out)@ + text_bytes(s@),
{
    let raw = s.as_bytes();
    assert(vstd::slice::spec_slice_len(raw) == raw@.len());
    put_u64(out, raw.len() as u64);
    out.extend_from_slice(raw);
    assert(out@ =~= old(out)@ + text_bytes(s@));
}

/// Reads the text that starts at `at`, and gives it with the offset of the
/// byte after it.
pub fn get_text(bytes: &[u8], at: usize) -> (r: Option<(String, usize)>)
    ensures
        match text_at(bytes@, at as int) {
            Some((s, next)) => r.is_some() && r.unwrap().0@ == s && r.unwrap().1 == next,
            None => r.is_none(),
        },
{
    let len = bytes.len();
    if len < 8 || at > len - 8 {
        return None;
    }
    let n = get_u64(bytes, at);
    let start = at + 8;
    if n > (len - start) as u64 {
        return None;
    }
    let end = start + n as usize;
    let raw = slice_to_vec(slice_subrange(bytes, start, end));
    match string_from_utf8(raw) {
        Some(s) => Some((s, end)),
        None => None,
    }
}

} // verus!
