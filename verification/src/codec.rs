//! Byte-level primitives of the wire format: little-endian integers and the
//! 4-byte-aligned, length-prefixed string encoding.
//!
//! Every `parse_*` spec function is the mathematical description of how a
//! value is read from a byte sequence at a position; every `*_bytes` spec
//! function describes the bytes a value is written as.  The executable
//! readers and writers are proved against these descriptions.

use vstd::bytes::lemma_auto_spec_u32_to_from_le_bytes;
use vstd::bytes::lemma_auto_spec_u64_to_from_le_bytes;
use vstd::bytes::spec_u32_from_le_bytes;
use vstd::bytes::spec_u32_to_le_bytes;
use vstd::bytes::spec_u64_from_le_bytes;
use vstd::bytes::spec_u64_to_le_bytes;
use vstd::bytes::u32_from_le_bytes;
use vstd::bytes::u32_to_le_bytes;
use vstd::bytes::u64_from_le_bytes;
use vstd::bytes::u64_to_le_bytes;
use vstd::prelude::*;
use vstd::slice::slice_subrange;
use vstd::slice::slice_to_vec;
use vstd::string::StrSliceExecFns;
use vstd::utf8::decode_utf8;
use vstd::utf8::encode_utf8;
use vstd::utf8::encode_utf8_decode_utf8;
use vstd::utf8::encode_utf8_valid_utf8;
use vstd::utf8::valid_utf8;

verus! {

/// Why a read from the wire failed: the input ended before the record did,
/// or an aligned string's content bytes were not valid UTF-8.
#[derive(Clone, Copy, Debug, PartialEq, Eq, Structural)]
pub enum ReadError {
    Truncated,
    InvalidData,
}

// ---------------------------------------------------------------------------
// Unsigned little-endian integers
// ---------------------------------------------------------------------------

/// Reading a `u32` at `pos`: four little-endian bytes.
pub open spec fn parse_u32(data: Seq<u8>, pos: int) -> Result<(u32, int), ReadError> {
    if 0 <= pos && pos + 4 <= data.len() {
        Ok((spec_u32_from_le_bytes(data.subrange(pos, pos + 4)), pos + 4))
    } else {
        Err(ReadError::Truncated)
    }
}

/// Reading a `u64` at `pos`: eight little-endian bytes.
pub open spec fn parse_u64(data: Seq<u8>, pos: int) -> Result<(u64, int), ReadError> {
    if 0 <= pos && pos + 8 <= data.len() {
        Ok((spec_u64_from_le_bytes(data.subrange(pos, pos + 8)), pos + 8))
    } else {
        Err(ReadError::Truncated)
    }
}

/// Appends the four little-endian bytes of `v`.
pub fn write_u32_le(out: &mut Vec<u8>, v: u32)
    ensures
        final(out)@ == old(out)@ + spec_u32_to_le_bytes(v),
{
    let mut bytes = u32_to_le_bytes(v);
    out.append(&mut bytes);
}

/// Appends the eight little-endian bytes of `v`.
pub fn write_u64_le(out: &mut Vec<u8>, v: u64)
    ensures
        final(out)@ == old(out)@ + spec_u64_to_le_bytes(v),
{
    let mut bytes = u64_to_le_bytes(v);
    out.append(&mut bytes);
}

/// Reads a `u32` stored as four little-endian bytes at `pos`.
pub fn read_u32_le(data: &[u8], pos: usize) -> (r: Result<(u32, usize), ReadError>)
    ensures
        match r {
            Ok((v, end)) => parse_u32(data@, pos as int) == Ok::<_, ReadError>((v, end as int)),
            Err(e) => parse_u32(data@, pos as int) == Err::<(u32, int), _>(e),
        },
{
    if pos <= data.len() && data.len() - pos >= 4 {
        let v = u32_from_le_bytes(slice_subrange(data, pos, pos + 4));
        Ok((v, pos + 4))
    } else {
        Err(ReadError::Truncated)
    }
}

/// Reads a `u64` stored as eight little-endian bytes at `pos`.
pub fn read_u64_le(data: &[u8], pos: usize) -> (r: Result<(u64, usize), ReadError>)
    ensures
        match r {
            Ok((v, end)) => parse_u64(data@, pos as int) == Ok::<_, ReadError>((v, end as int)),
            Err(e) => parse_u64(data@, pos as int) == Err::<(u64, int), _>(e),
        },
{
    if pos <= data.len() && data.len() - pos >= 8 {
        let v = u64_from_le_bytes(slice_subrange(data, pos, pos + 8));
        Ok((v, pos + 8))
    } else {
        Err(ReadError::Truncated)
    }
}

// ---------------------------------------------------------------------------
// Signed integers, stored as their two's-complement bit pattern
// ---------------------------------------------------------------------------

/// The two's-complement bit pattern of an `i32`.
pub open spec fn u32_of_i32(v: i32) -> u32 {
    if v >= 0 {
        v as u32
    } else {
        (v + 0x1_0000_0000) as u32
    }
}

/// The `i32` whose two's-complement bit pattern is `v`.
pub open spec fn i32_of_u32(v: u32) -> i32 {
    if v < 0x8000_0000 {
        v as i32
    } else {
        (v - 0x1_0000_0000) as i32
    }
}

/// The two's-complement bit pattern of an `i64`.
pub open spec fn u64_of_i64(v: i64) -> u64 {
    if v >= 0 {
        v as u64
    } else {
        (v + 0x1_0000_0000_0000_0000) as u64
    }
}

/// The `i64` whose two's-complement bit pattern is `v`.
pub open spec fn i64_of_u64(v: u64) -> i64 {
    if v < 0x8000_0000_0000_0000 {
        v as i64
    } else {
        (v - 0x1_0000_0000_0000_0000) as i64
    }
}

/// The four little-endian bytes of an `i32`.
pub open spec fn spec_i32_to_le_bytes(v: i32) -> Seq<u8> {
    spec_u32_to_le_bytes(u32_of_i32(v))
}

/// The eight little-endian bytes of an `i64`.
pub open spec fn spec_i64_to_le_bytes(v: i64) -> Seq<u8> {
    spec_u64_to_le_bytes(u64_of_i64(v))
}

/// Reading an `i32` at `pos`.
pub open spec fn parse_i32(data: Seq<u8>, pos: int) -> Result<(i32, int), ReadError> {
    match parse_u32(data, pos) {
        Ok((v, end)) => Ok((i32_of_u32(v), end)),
        Err(e) => Err(e),
    }
}

/// Reading an `i64` at `pos`.
pub open spec fn parse_i64(data: Seq<u8>, pos: int) -> Result<(i64, int), ReadError> {
    match parse_u64(data, pos) {
        Ok((v, end)) => Ok((i64_of_u64(v), end)),
        Err(e) => Err(e),
    }
}

/// Appends the four little-endian bytes of `v`.
pub fn write_i32_le(out: &mut Vec<u8>, v: i32)
    ensures
        final(out)@ == old(out)@ + spec_i32_to_le_bytes(v),
{
    let bits: u32 = if v >= 0 {
        v as u32
    } else {
        ((v as i64) + 0x1_0000_0000i64) as u32
    };
    write_u32_le(out, bits);
}

/// Appends the eight little-endian bytes of `v`.
pub fn write_i64_le(out: &mut Vec<u8>, v: i64)
    ensures
        final(out)@ == old(out)@ + spec_i64_to_le_bytes(v),
{
    let bits: u64 = if v >= 0 {
        v as u64
    } else {
        ((v as i128) + 0x1_0000_0000_0000_0000i128) as u64
    };
    write_u64_le(out, bits);
}

/// Reads an `i32` stored as four little-endian bytes at `pos`.
pub fn read_i32_le(data: &[u8], pos: usize) -> (r: Result<(i32, usize), ReadError>)
    ensures
        match r {
            Ok((v, end)) => parse_i32(data@, pos as int) == Ok::<_, ReadError>((v, end as int)),
            Err(e) => parse_i32(data@, pos as int) == Err::<(i32, int), _>(e),
        },
{
    match read_u32_le(data, pos) {
        Ok((bits, end)) => {
            let v: i32 = if bits < 0x8000_0000 {
                bits as i32
            } else {
                ((bits as i64) - 0x1_0000_0000i64) as i32
            };
            Ok((v, end))
        },
        Err(e) => Err(e),
    }
}

/// Reads an `i64` stored as eight little-endian bytes at `pos`.
pub fn read_i64_le(data: &[u8], pos: usize) -> (r: Result<(i64, usize), ReadError>)
    ensures
        match r {
            Ok((v, end)) => parse_i64(data@, pos as int) == Ok::<_, ReadError>((v, end as int)),
            Err(e) => parse_i64(data@, pos as int) == Err::<(i64, int), _>(e),
        },
{
    match read_u64_le(data, pos) {
        Ok((bits, end)) => {
            let v: i64 = if bits < 0x8000_0000_0000_0000 {
                bits as i64
            } else {
                ((bits as i128) - 0x1_0000_0000_0000_0000i128) as i64
            };
            Ok((v, end))
        },
        Err(e) => Err(e),
    }
}

// ---------------------------------------------------------------------------
// Aligned strings
// ---------------------------------------------------------------------------

/// How many zero bytes the writer appends after `n` content bytes: always at
/// least one and at most four, so a content length that is already a multiple
/// of four still gets a full 4-byte pad.  This quirk is part of the wire
/// format.
pub open spec fn pad_len(n: int) -> int {
    4 - (n % 4)
}

/// How many bytes the reader skips after `n` content bytes: zero when `n` is
/// already a multiple of four.  Deliberately not the same as `pad_len`; see
/// `parse_aligned_str`.
pub open spec fn skip_len(n: int) -> int {
    (4 - (n % 4)) % 4
}

/// `n` zero bytes.
pub open spec fn zero_bytes(n: int) -> Seq<u8> {
    Seq::new(n as nat, |i: int| 0u8)
}

/// The bytes written for the string `s`: a 4-byte little-endian length
/// prefix holding the UTF-8 byte length, the UTF-8 bytes themselves, and
/// one to four zero bytes of padding (`pad_len`).
pub open spec fn aligned_str_bytes(s: Seq<char>) -> Seq<u8> {
    let b = encode_utf8(s);
    spec_u32_to_le_bytes(b.len() as u32) + b + zero_bytes(pad_len(b.len() as int))
}

/// Reading an aligned string at `pos`: the length prefix, then exactly that
/// many content bytes, then a skip of `skip_len` bytes.  The reader tolerates
/// input that ends inside the padding (the skip stops at the end of the
/// data), but not inside the content.  Content that is not valid UTF-8 is
/// `InvalidData`.
///
/// Note the asymmetry with `aligned_str_bytes`: for a content length that is
/// a multiple of four the writer emits four padding bytes but the reader
/// skips none.  Both behaviours are load-bearing for compatibility with
/// existing files and are preserved independently.
pub open spec fn parse_aligned_str(data: Seq<u8>, pos: int) -> Result<(Seq<char>, int), ReadError> {
    match parse_u32(data, pos) {
        Ok((len32, p1)) => {
            let n = len32 as int;
            if p1 + n > data.len() {
                Err(ReadError::Truncated)
            } else {
                let content = data.subrange(p1, p1 + n);
                if valid_utf8(content) {
                    let end = if p1 + n + skip_len(n) <= data.len() {
                        p1 + n + skip_len(n)
                    } else {
                        data.len() as int
                    };
                    Ok((decode_utf8(content), end))
                } else {
                    Err(ReadError::InvalidData)
                }
            }
        },
        Err(e) => Err(e),
    }
}

/// Writes `s` as a length-prefixed, 4-byte-aligned UTF-8 string.
///
/// The length prefix is 32 bits, so the UTF-8 byte length of `s` must fit in
/// a `u32`.
pub fn write_aligned_str(out: &mut Vec<u8>, s: &str)
    requires
        encode_utf8(s@).len() <= u32::MAX,
    ensures
        final(out)@ == old(out)@ + aligned_str_bytes(s@),
{
    let mut bytes = s.as_bytes_vec();
    let n = bytes.len();
    write_u32_le(out, n as u32);
    out.append(&mut bytes);
    let pad = 4 - (n % 4);
    let mut i: usize = 0;
    while i < pad
        invariant
            i <= pad,
            pad == pad_len(encode_utf8(s@).len() as int),
            out@ == old(out)@ + spec_u32_to_le_bytes(encode_utf8(s@).len() as u32)
                + encode_utf8(s@) + zero_bytes(i as int),
        decreases pad - i,
    {
        out.push(0);
        proof {
            assert(zero_bytes(i + 1) =~= zero_bytes(i as int).push(0u8));
        }
        i = i + 1;
    }
    proof {
        assert(out@ =~= old(out)@ + aligned_str_bytes(s@));
    }
}

/// Relies on `String::from_utf8`: succeeds exactly when the bytes are valid
/// UTF-8, and then returns the string holding exactly those bytes, whose
/// characters are their UTF-8 decoding.
#[verifier::external_body]
fn string_from_utf8(bytes: Vec<u8>) -> (r: Option<String>)
    ensures
        r is Some <==> valid_utf8(bytes@),
        r matches Some(s) ==> s@ == decode_utf8(bytes@),
{
    String::from_utf8(bytes).ok()
}

/// Reads a length-prefixed, 4-byte-aligned UTF-8 string at `pos`.
pub fn read_aligned_str(data: &[u8], pos: usize) -> (r: Result<(String, usize), ReadError>)
    ensures
        match r {
            Ok((s, end)) => parse_aligned_str(data@, pos as int) == Ok::<_, ReadError>((
                s@,
                end as int,
            )),
            Err(e) => parse_aligned_str(data@, pos as int) == Err::<(Seq<char>, int), _>(e),
        },
{
    let (len32, p1) = match read_u32_le(data, pos) {
        Ok(x) => x,
        Err(e) => {
            return Err(e);
        },
    };
    let n = len32 as usize;
    if n > data.len() - p1 {
        return Err(ReadError::Truncated);
    }
    let content = slice_to_vec(slice_subrange(data, p1, p1 + n));
    match string_from_utf8(content) {
        Some(s) => {
            let skip = (4 - (n % 4)) % 4;
            let content_end = p1 + n;
            let end = if skip <= data.len() - content_end {
                content_end + skip
            } else {
                data.len()
            };
            Ok((s, end))
        },
        None => Err(ReadError::InvalidData),
    }
}

// ---------------------------------------------------------------------------
// Laws
// ---------------------------------------------------------------------------

/// The lengths of the little-endian encodings, and that decoding undoes
/// encoding — restated from vstd with triggers that fire on the encoding
/// term alone.
pub proof fn lemma_le_bytes_facts()
    ensures
        forall|v: u32| (#[trigger] spec_u32_to_le_bytes(v)).len() == 4,
        forall|v: u64| (#[trigger] spec_u64_to_le_bytes(v)).len() == 8,
        forall|v: u32| spec_u32_from_le_bytes(#[trigger] spec_u32_to_le_bytes(v)) == v,
        forall|v: u64| spec_u64_from_le_bytes(#[trigger] spec_u64_to_le_bytes(v)) == v,
{
    lemma_auto_spec_u32_to_from_le_bytes();
    lemma_auto_spec_u64_to_from_le_bytes();
    assert forall|v: u32|
        (#[trigger] spec_u32_to_le_bytes(v)).len() == 4 && spec_u32_from_le_bytes(
            spec_u32_to_le_bytes(v),
        ) == v by {
        assert(spec_u32_to_le_bytes(v).len() == 4);
    }
    assert forall|v: u64|
        (#[trigger] spec_u64_to_le_bytes(v)).len() == 8 && spec_u64_from_le_bytes(
            spec_u64_to_le_bytes(v),
        ) == v by {
        assert(spec_u64_to_le_bytes(v).len() == 8);
    }
}

/// Splits knowledge about a subrange that holds a concatenation into
/// knowledge about the two halves.
pub proof fn lemma_peel(data: Seq<u8>, pos: int, a: Seq<u8>, b: Seq<u8>)
    requires
        0 <= pos,
        pos + a.len() + b.len() <= data.len(),
        data.subrange(pos, pos + a.len() + b.len()) == a + b,
    ensures
        data.subrange(pos, pos + a.len()) == a,
        data.subrange(pos + a.len(), pos + a.len() + b.len()) == b,
{
    let whole = data.subrange(pos, pos + a.len() + b.len());
    assert forall|i: int| 0 <= i < a.len() implies data[pos + i] == a[i] by {
        assert(whole[i] == (a + b)[i]);
    }
    assert forall|i: int| 0 <= i < b.len() implies data[pos + a.len() + i] == b[i] by {
        assert(whole[a.len() + i] == (a + b)[a.len() + i]);
    }
    assert(data.subrange(pos, pos + a.len()) =~= a);
    assert(data.subrange(pos + a.len(), pos + a.len() + b.len()) =~= b);
}

/// Law: an aligned string round-trips.  Parsing the bytes written for `s`
/// (at any position, with anything after them) yields `s` again, ending
/// after the length prefix, the content and the reader's skip.
pub proof fn lemma_aligned_str_round_trip(s: Seq<char>, data: Seq<u8>, pos: int)
    requires
        encode_utf8(s).len() <= u32::MAX,
        0 <= pos,
        pos + aligned_str_bytes(s).len() <= data.len(),
        data.subrange(pos, pos + aligned_str_bytes(s).len()) == aligned_str_bytes(s),
    ensures
        parse_aligned_str(data, pos) == Ok::<_, ReadError>((
            s,
            pos + 4 + encode_utf8(s).len() + skip_len(encode_utf8(s).len() as int),
        )),
{
    let b = encode_utf8(s);
    let n = b.len() as int;
    let prefix = spec_u32_to_le_bytes(b.len() as u32);
    let tail = b + zero_bytes(pad_len(n));
    assert(prefix.len() == 4) by {
        lemma_auto_spec_u32_to_from_le_bytes();
    }
    assert(aligned_str_bytes(s) =~= prefix + tail);
    lemma_peel(data, pos, prefix, tail);
    assert(spec_u32_from_le_bytes(prefix) == b.len() as u32) by {
        lemma_auto_spec_u32_to_from_le_bytes();
    }
    assert(parse_u32(data, pos) == Ok::<_, ReadError>((b.len() as u32, pos + 4)));
    lemma_peel(data, pos + 4, b, zero_bytes(pad_len(n)));
    assert(data.subrange(pos + 4, pos + 4 + n) == b);
    assert(valid_utf8(b)) by {
        encode_utf8_valid_utf8(s);
    }
    assert(decode_utf8(b) == s) by {
        encode_utf8_decode_utf8(s);
    }
    assert(skip_len(n) <= pad_len(n));
    assert(pos + 4 + n + skip_len(n) <= data.len());
}

/// Law: the bytes written for any string occupy a multiple of four bytes
/// (length prefix, content and padding together).
pub proof fn lemma_aligned_str_bytes_multiple_of_4(s: Seq<char>)
    ensures
        aligned_str_bytes(s).len() % 4 == 0,
{
    let n = encode_utf8(s).len() as int;
    assert(spec_u32_to_le_bytes(n as u32).len() == 4) by {
        lemma_auto_spec_u32_to_from_le_bytes();
    }
    assert(aligned_str_bytes(s).len() == 8 + n - (n % 4));
    assert((8 + n - (n % 4)) % 4 == 0) by {
        vstd::arithmetic::div_mod::lemma_fundamental_div_mod(n, 4);
        assert(8 + n - (n % 4) == 4 * (2 + n / 4));
        vstd::arithmetic::div_mod::lemma_mod_multiples_basic(2 + n / 4, 4);
    }
}

} // verus!
