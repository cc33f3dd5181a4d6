//! Deterministic binary codec for stored records.
//!
//! Every record is laid out as a fixed sequence of fields; an integer is
//! eight big-endian bytes, a byte string or character string is an
//! eight-byte big-endian length followed by the raw bytes (UTF-8 for
//! character strings).  Readers walk the buffer left to right and reject a
//! buffer that does not match the layout exactly.

use vstd::prelude::*;
use vstd::utf8::{valid_utf8, decode_utf8, encode_utf8};
use vstd::string::StrSliceExecFns;
use crate::error::ContractError;

verus! {

// ---------------------------------------------------------------------------
// 64-bit integers as big-endian bytes
// ---------------------------------------------------------------------------

/// The eight-byte big-endian image of a 64-bit integer.
pub closed spec fn be_bytes_of_u64(x: u64) -> Seq<u8> {
    seq![
        ((x >> 56) & 0xff) as u8,
        ((x >> 48) & 0xff) as u8,
        ((x >> 40) & 0xff) as u8,
        ((x >> 32) & 0xff) as u8,
        ((x >> 24) & 0xff) as u8,
        ((x >> 16) & 0xff) as u8,
        ((x >> 8) & 0xff) as u8,
        (x & 0xff) as u8,
    ]
}

/// The 64-bit integer read from eight big-endian bytes.
pub closed spec fn u64_of_be_bytes(s: Seq<u8>) -> u64
    recommends
        s.len() == 8,
{
    (s[0] as u64) << 56 | (s[1] as u64) << 48 | (s[2] as u64) << 40 | (s[3] as u64) << 32
        | (s[4] as u64) << 24 | (s[5] as u64) << 16 | (s[6] as u64) << 8 | (s[7] as u64)
}

/// A big-endian image is always eight bytes long.
pub broadcast proof fn lemma_u64_be_len(x: u64)
    ensures
        #[trigger] be_bytes_of_u64(x).len() == 8,
{
}

/// Reading back the big-endian image of an integer yields the integer.
pub proof fn lemma_u64_be_roundtrip(x: u64)
    ensures
        be_bytes_of_u64(x).len() == 8,
        u64_of_be_bytes(be_bytes_of_u64(x)) == x,
{
    let s = be_bytes_of_u64(x);
    assert(u64_of_be_bytes(s) == ((((x >> 56) & 0xff) as u8) as u64) << 56
        | ((((x >> 48) & 0xff) as u8) as u64) << 48 | ((((x >> 40) & 0xff) as u8) as u64) << 40
        | ((((x >> 32) & 0xff) as u8) as u64) << 32 | ((((x >> 24) & 0xff) as u8) as u64) << 24
        | ((((x >> 16) & 0xff) as u8) as u64) << 16 | ((((x >> 8) & 0xff) as u8) as u64) << 8
        | (((x & 0xff) as u8) as u64));
    assert(((((x >> 56) & 0xff) as u8) as u64) << 56 | ((((x >> 48) & 0xff) as u8) as u64) << 48
        | ((((x >> 40) & 0xff) as u8) as u64) << 40 | ((((x >> 32) & 0xff) as u8) as u64) << 32
        | ((((x >> 24) & 0xff) as u8) as u64) << 24 | ((((x >> 16) & 0xff) as u8) as u64) << 16
        | ((((x >> 8) & 0xff) as u8) as u64) << 8 | (((x & 0xff) as u8) as u64) == x)
        by (bit_vector);
}

/// Distinct integers have distinct big-endian images.
pub proof fn lemma_u64_be_injective(x: u64, y: u64)
    ensures
        be_bytes_of_u64(x) == be_bytes_of_u64(y) ==> x == y,
{
    if be_bytes_of_u64(x) == be_bytes_of_u64(y) {
        lemma_u64_be_roundtrip(x);
        lemma_u64_be_roundtrip(y);
    }
}

/// Appends the eight big-endian bytes of `x` to `out`.
pub fn write_u64_be(out: &mut Vec<u8>, x: u64)
    ensures
        final(out)@ == old(out)@ + be_bytes_of_u64(x),
{
    out.push(((x >> 56) & 0xff) as u8);
    out.push(((x >> 48) & 0xff) as u8);
    out.push(((x >> 40) & 0xff) as u8);
    out.push(((x >> 32) & 0xff) as u8);
    out.push(((x >> 24) & 0xff) as u8);
    out.push(((x >> 16) & 0xff) as u8);
    out.push(((x >> 8) & 0xff) as u8);
    out.push((x & 0xff) as u8);
    proof {
        assert(out@ =~= old(out)@ + be_bytes_of_u64(x));
    }
}

// ---------------------------------------------------------------------------
// Field encodings: length-prefixed byte strings and character strings
// ---------------------------------------------------------------------------

/// The image of a byte-string field: an eight-byte big-endian length,
/// then the bytes themselves.
pub open spec fn enc_bytes(b: Seq<u8>) -> Seq<u8> {
    be_bytes_of_u64(b.len() as u64) + b
}

/// The image of a character-string field: its UTF-8 bytes as a
/// length-prefixed byte string.
pub open spec fn enc_str(s: Seq<char>) -> Seq<u8> {
    enc_bytes(encode_utf8(s))
}

// ---------------------------------------------------------------------------
// Spec-level readers: walk a buffer left to right
// ---------------------------------------------------------------------------

/// Reads an eight-byte big-endian integer at `pos`; yields the value and the
/// position just past it.
pub open spec fn read_u64(b: Seq<u8>, pos: int) -> Option<(u64, int)> {
    if 0 <= pos && pos + 8 <= b.len() {
        Some((u64_of_be_bytes(b.subrange(pos, pos + 8)), pos + 8))
    } else {
        None
    }
}

/// Reads a length-prefixed byte string at `pos`.
pub open spec fn read_bytes(b: Seq<u8>, pos: int) -> Option<(Seq<u8>, int)> {
    match read_u64(b, pos) {
        Some((n, p)) => if p + n <= b.len() {
            Some((b.subrange(p, p + n), p + n))
        } else {
            None
        },
        None => None,
    }
}

/// Reads a length-prefixed UTF-8 character string at `pos`.
pub open spec fn read_str(b: Seq<u8>, pos: int) -> Option<(Seq<char>, int)> {
    match read_bytes(b, pos) {
        Some((raw, p)) => if valid_utf8(raw) {
            Some((decode_utf8(raw), p))
        } else {
            None
        },
        None => None,
    }
}

// ---------------------------------------------------------------------------
// Composition lemmas: reading at a field boundary yields the field
// ---------------------------------------------------------------------------

/// Reading an integer field where one was written yields that integer.
pub proof fn lemma_read_u64_at(pre: Seq<u8>, x: u64, rest: Seq<u8>)
    ensures
        read_u64(pre + be_bytes_of_u64(x) + rest, pre.len() as int) == Some(
            (x, pre.len() + 8int),
        ),
{
    let b = pre + be_bytes_of_u64(x) + rest;
    lemma_u64_be_roundtrip(x);
    assert(b.subrange(pre.len() as int, pre.len() + 8int) =~= be_bytes_of_u64(x));
}

/// Reading a byte-string field where one was written yields those bytes.
pub proof fn lemma_read_bytes_at(pre: Seq<u8>, field: Seq<u8>, rest: Seq<u8>)
    requires
        field.len() <= u64::MAX,
    ensures
        read_bytes(pre + enc_bytes(field) + rest, pre.len() as int) == Some(
            (field, pre.len() + 8 + field.len() as int),
        ),
{
    let b = pre + enc_bytes(field) + rest;
    let n = field.len() as u64;
    assert(b =~= pre + be_bytes_of_u64(n) + (field + rest));
    lemma_read_u64_at(pre, n, field + rest);
    let p = pre.len() + 8int;
    assert(b.subrange(p, p + n) =~= field);
}

/// Reading a character-string field where one was written yields that string.
pub proof fn lemma_read_str_at(pre: Seq<u8>, s: Seq<char>, rest: Seq<u8>)
    requires
        encode_utf8(s).len() <= u64::MAX,
    ensures
        read_str(pre + enc_str(s) + rest, pre.len() as int) == Some(
            (s, pre.len() + 8 + encode_utf8(s).len() as int),
        ),
{
    broadcast use vstd::utf8::encode_utf8_valid_utf8, vstd::utf8::encode_utf8_decode_utf8;

    lemma_read_bytes_at(pre, encode_utf8(s), rest);
}

// ---------------------------------------------------------------------------
// Executable readers
// ---------------------------------------------------------------------------

/// Reads an eight-byte big-endian integer at `pos`, as `read_u64` describes.
pub fn take_u64(b: &Vec<u8>, pos: usize) -> (r: Option<(u64, usize)>)
    requires
        pos <= b@.len(),
    ensures
        match r {
            Some(out) => {
                &&& read_u64(b@, pos as int) == Some((out.0, out.1 as int))
                &&& out.1 <= b@.len()
            },
            None => read_u64(b@, pos as int) is None,
        },
{
    if b.len() - pos >= 8 {
        let x = (b[pos] as u64) << 56 | (b[pos + 1] as u64) << 48 | (b[pos + 2] as u64) << 40
            | (b[pos + 3] as u64) << 32 | (b[pos + 4] as u64) << 24 | (b[pos + 5] as u64) << 16
            | (b[pos + 6] as u64) << 8 | (b[pos + 7] as u64);
        proof {
            let s = b@.subrange(pos as int, pos + 8int);
            assert(s[0] == b@[pos as int]);
            assert(s[1] == b@[pos + 1int]);
            assert(s[2] == b@[pos + 2int]);
            assert(s[3] == b@[pos + 3int]);
            assert(s[4] == b@[pos + 4int]);
            assert(s[5] == b@[pos + 5int]);
            assert(s[6] == b@[pos + 6int]);
            assert(s[7] == b@[pos + 7int]);
        }
        Some((x, pos + 8))
    } else {
        None
    }
}

/// Reads a length-prefixed byte string at `pos`, as `read_bytes` describes.
pub fn take_bytes(b: &Vec<u8>, pos: usize) -> (r: Option<(Vec<u8>, usize)>)
    requires
        pos <= b@.len(),
    ensures
        match r {
            Some(out) => {
                &&& read_bytes(b@, pos as int) == Some((out.0@, out.1 as int))
                &&& out.1 <= b@.len()
            },
            None => read_bytes(b@, pos as int) is None,
        },
{
    match take_u64(b, pos) {
        None => None,
        Some((n, p)) => {
            if n <= (b.len() - p) as u64 {
                let len = n as usize;
                let end = p + len;
                let mut out: Vec<u8> = Vec::new();
                let mut i: usize = p;
                while i < end
                    invariant
                        p <= i <= end <= b@.len(),
                        out@ == b@.subrange(p as int, i as int),
                    decreases end - i,
                {
                    out.push(b[i]);
                    proof {
                        assert(out@ =~= b@.subrange(p as int, i + 1int));
                    }
                    i = i + 1;
                }
                Some((out, end))
            } else {
                None
            }
        },
    }
}

/// Relies on std's `String::from_utf8`: it succeeds exactly on valid UTF-8
/// input, and the characters of the returned string are the decoding of the
/// input bytes.
#[verifier::external_body]
fn string_from_utf8(v: Vec<u8>) -> (r: Option<String>)
    ensures
        r is Some <==> valid_utf8(v@),
        r is Some ==> r->0@ == decode_utf8(v@),
{
    match String::from_utf8(v) {
        Ok(s) => Some(s),
        Err(_) => None,
    }
}

/// Reads a length-prefixed UTF-8 string at `pos`, as `read_str` describes.
pub fn take_str(b: &Vec<u8>, pos: usize) -> (r: Option<(String, usize)>)
    requires
        pos <= b@.len(),
    ensures
        match r {
            Some(out) => {
                &&& read_str(b@, pos as int) == Some((out.0@, out.1 as int))
                &&& out.1 <= b@.len()
            },
            None => read_str(b@, pos as int) is None,
        },
{
    match take_bytes(b, pos) {
        None => None,
        Some((raw, p)) => match string_from_utf8(raw) {
            Some(s) => Some((s, p)),
            None => None,
        },
    }
}

/// A fresh string holding the same characters.
pub fn clone_string(s: &String) -> (r: String)
    ensures
        r@ == s@,
{
    s.clone()
}

/// The bytes of `b` from `pos` to the end, as a fresh byte string.
pub fn tail_from(b: &Vec<u8>, pos: usize) -> (r: Vec<u8>)
    requires
        pos <= b@.len(),
    ensures
        r@ == b@.subrange(pos as int, b@.len() as int),
{
    let n = b.len();
    let mut r: Vec<u8> = Vec::new();
    let mut i: usize = pos;
    while i < n
        invariant
            pos <= i <= n == b@.len(),
            r@ == b@.subrange(pos as int, i as int),
        decreases n - i,
    {
        r.push(b[i]);
        proof {
            assert(r@ =~= b@.subrange(pos as int, i + 1int));
        }
        i = i + 1;
    }
    r
}

// ---------------------------------------------------------------------------
// Executable writers
// ---------------------------------------------------------------------------

/// Appends a length-prefixed byte string to `out`.
pub fn write_bytes(out: &mut Vec<u8>, field: &Vec<u8>)
    ensures
        final(out)@ == old(out)@ + enc_bytes(field@),
{
    write_u64_be(out, field.len() as u64);
    let mut i: usize = 0;
    let ghost mid = out@;
    while i < field.len()
        invariant
            i <= field@.len(),
            out@ == mid + field@.subrange(0, i as int),
        decreases field@.len() - i,
    {
        out.push(field[i]);
        proof {
            assert(out@ =~= mid + field@.subrange(0, i + 1int));
        }
        i = i + 1;
    }
    proof {
        assert(field@.subrange(0, field@.len() as int) =~= field@);
        assert(out@ =~= old(out)@ + enc_bytes(field@));
    }
}

/// Appends a length-prefixed UTF-8 string to `out`.
pub fn write_str(out: &mut Vec<u8>, s: &String)
    ensures
        final(out)@ == old(out)@ + enc_str(s@),
        encode_utf8(s@).len() <= u64::MAX,
{
    let raw = s.as_str().as_bytes_vec();
    let n = raw.len();
    proof {
        assert(encode_utf8(s@).len() == n);
        assert(n <= usize::MAX <= u64::MAX);
    }
    write_bytes(out, &raw);
}

// ---------------------------------------------------------------------------
// The record interface
// ---------------------------------------------------------------------------

/// A record type with a deterministic binary layout.
///
/// `enc` and `dec` describe the layout at the level of the record's
/// mathematical view; `encode` and `decode` compute them, and
/// `lemma_roundtrip` states that decoding inverts encoding on every valid
/// view, so `decode(encode(x))` recovers `x` exactly.
pub trait Record: View + Sized {
    /// The views for which the layout is defined: every in-memory record
    /// satisfies this (field lengths fit the length prefixes).
    spec fn valid(v: Self::V) -> bool;

    /// The byte image of a record view.
    spec fn enc(v: Self::V) -> Seq<u8>;

    /// The view read back from a byte image, if the bytes fit the layout
    /// exactly; `None` otherwise.
    spec fn dec(b: Seq<u8>) -> Option<Self::V>;

    /// Decoding inverts encoding on every valid record view.
    proof fn lemma_roundtrip(v: Self::V)
        requires
            Self::valid(v),
        ensures
            Self::dec(Self::enc(v)) == Some(v),
    ;

    /// Serializes the record; total, and deterministic over the view.
    fn encode(&self) -> (r: Vec<u8>)
        ensures
            Self::valid(self@),
            r@ == Self::enc(self@),
    ;

    /// Parses a record from bytes; fails exactly on bytes that no record
    /// view decodes from.
    fn decode(b: &Vec<u8>) -> (r: Result<Self, ContractError>)
        ensures
            match r {
                Ok(x) => Self::dec(b@) == Some(x@) && Self::valid(x@),
                Err(e) => Self::dec(b@) is None && e == ContractError::DecodeError,
            },
    ;
}

} // verus!
