//! The payload encoding: bincode 1.x with its default options (fixed-width
//! little-endian integers, strings as a 64-bit byte length followed by the
//! UTF-8 bytes, one byte 0 or 1 for a bool, trailing bytes allowed when
//! reading). Each primitive goes through the `bincode` crate; this module
//! states what each call gives and reads values at an offset of a buffer.
use vstd::prelude::*;
use vstd::utf8::{decode_utf8, encode_utf8, valid_utf8};

use crate::error::PeacockError;

verus! {

// ---------------------------------------------------------------------------
// The encodings, as byte sequences.

/// The two little-endian bytes of a 16-bit value.
pub open spec fn le16(v: u16) -> Seq<u8> {
    seq![(v % 256) as u8, (v / 256) as u8]
}

/// The four little-endian bytes of a 32-bit value.
pub open spec fn le32(v: u32) -> Seq<u8> {
    seq![(v % 256) as u8, ((v / 256) % 256) as u8, ((v / 65536) % 256) as u8, (v / 16777216) as u8]
}

/// The eight little-endian bytes of a 64-bit value.
pub open spec fn le64(v: u64) -> Seq<u8> {
    seq![
        (v % 256) as u8,
        ((v / 256) % 256) as u8,
        ((v / 65536) % 256) as u8,
        ((v / 16777216) % 256) as u8,
        ((v / 4294967296) % 256) as u8,
        ((v / 1099511627776) % 256) as u8,
        ((v / 281474976710656) % 256) as u8,
        (v / 72057594037927936) as u8,
    ]
}

/// The byte of a bool.
pub open spec fn bool_byte(v: bool) -> Seq<u8> {
    seq![if v { 1u8 } else { 0u8 }]
}

/// A string: its UTF-8 length as 64 bits, then its UTF-8 bytes.
#[verifier::opaque]
pub open spec fn str_bytes(s: Seq<char>) -> Seq<u8> {
    le64(encode_utf8(s).len() as u64) + encode_utf8(s)
}

/// A string whose UTF-8 length fits the 64-bit length prefix.
pub open spec fn str_fits(s: Seq<char>) -> bool {
    encode_utf8(s).len() <= u64::MAX
}

// ---------------------------------------------------------------------------
// Reading at an offset: the value and the offset just past it.

pub open spec fn le16_at(b: Seq<u8>, i: int) -> u16 {
    (b[i] + b[i + 1] * 256) as u16
}

pub open spec fn le32_at(b: Seq<u8>, i: int) -> u32 {
    (b[i] + b[i + 1] * 256 + b[i + 2] * 65536 + b[i + 3] * 16777216) as u32
}

pub open spec fn le64_at(b: Seq<u8>, i: int) -> u64 {
    (b[i] + b[i + 1] * 256 + b[i + 2] * 65536 + b[i + 3] * 16777216 + b[i + 4] * 4294967296
        + b[i + 5] * 1099511627776 + b[i + 6] * 281474976710656 + b[i + 7]
        * 72057594037927936) as u64
}

pub open spec fn parse_u16(b: Seq<u8>, i: int) -> Option<(u16, int)> {
    if 0 <= i && i + 2 <= b.len() {
        Some((le16_at(b, i), i + 2))
    } else {
        None
    }
}

pub open spec fn parse_u32(b: Seq<u8>, i: int) -> Option<(u32, int)> {
    if 0 <= i && i + 4 <= b.len() {
        Some((le32_at(b, i), i + 4))
    } else {
        None
    }
}

pub open spec fn parse_u64(b: Seq<u8>, i: int) -> Option<(u64, int)> {
    if 0 <= i && i + 8 <= b.len() {
        Some((le64_at(b, i), i + 8))
    } else {
        None
    }
}

/// A bool is one byte, 0 or 1; any other byte is refused.
pub open spec fn parse_bool(b: Seq<u8>, i: int) -> Option<(bool, int)> {
    if 0 <= i && i + 1 <= b.len() && (b[i] == 0 || b[i] == 1) {
        Some((b[i] == 1, i + 1))
    } else {
        None
    }
}

/// A string: a 64-bit length, then that many bytes, which must be UTF-8.
#[verifier::opaque]
pub open spec fn parse_str(b: Seq<u8>, i: int) -> Option<(Seq<char>, int)> {
    match parse_u64(b, i) {
        Some((n, j)) => if j + n <= b.len() && valid_utf8(b.subrange(j, j + n)) {
            Some((decode_utf8(b.subrange(j, j + n)), j + n))
        } else {
            None
        },
        None => None,
    }
}

// ---------------------------------------------------------------------------
// Facts about the primitives.

proof fn lemma_le16_bytes(v: u16)
    ensures
        le16_at(le16(v), 0) == v,
{
    let b0 = v % 256;
    let b1 = v / 256;
    assert(b0 + b1 * 256 == v);
}

proof fn lemma_le32_bytes(v: u32)
    ensures
        le32_at(le32(v), 0) == v,
{
    assert((v % 256) + ((v / 256) % 256) * 256 + ((v / 65536) % 256) * 65536 + (v / 16777216)
        * 16777216 == v) by (bit_vector);
}

proof fn lemma_le64_bytes(v: u64)
    ensures
        le64_at(le64(v), 0) == v,
{
    assert((v % 256) + ((v / 256) % 256) * 256 + ((v / 65536) % 256) * 65536 + ((v / 16777216)
        % 256) * 16777216 + ((v / 4294967296) % 256) * 4294967296 + ((v / 1099511627776) % 256)
        * 1099511627776 + ((v / 281474976710656) % 256) * 281474976710656 + (v
        / 72057594037927936) * 72057594037927936 == v) by (bit_vector);
}

proof fn lemma_le16_value(b0: u8, b1: u8)
    ensures
        le16(le16_at(seq![b0, b1], 0)) == seq![b0, b1],
{
    let v: u16 = (b0 + b1 * 256) as u16;
    assert(le16_at(seq![b0, b1], 0) == v);
    assert(v % 256 == b0 && v / 256 == b1);
    assert(le16(v) =~= seq![b0, b1]);
}

proof fn lemma_le32_value(b0: u8, b1: u8, b2: u8, b3: u8)
    ensures
        le32(le32_at(seq![b0, b1, b2, b3], 0)) == seq![b0, b1, b2, b3],
{
    let v: u32 = (b0 + b1 * 256 + b2 * 65536 + b3 * 16777216) as u32;
    assert(le32_at(seq![b0, b1, b2, b3], 0) == v);
    assert(v == b0 as u32 + b1 as u32 * 256 + b2 as u32 * 65536 + b3 as u32 * 16777216);
    assert(v == b0 as u32 + b1 as u32 * 256 + b2 as u32 * 65536 + b3 as u32 * 16777216 ==> (v
        % 256) as u8 == b0 && ((v / 256) % 256) as u8 == b1 && ((v / 65536) % 256) as u8 == b2 && (v
        / 16777216) as u8 == b3) by (bit_vector);
    assert(le32(v) =~= seq![b0, b1, b2, b3]);
}

proof fn lemma_le64_value(b0: u8, b1: u8, b2: u8, b3: u8, b4: u8, b5: u8, b6: u8, b7: u8)
    ensures
        le64(le64_at(seq![b0, b1, b2, b3, b4, b5, b6, b7], 0)) == seq![b0, b1, b2, b3, b4, b5, b6, b7],
{
    let v: u64 = (b0 + b1 * 256 + b2 * 65536 + b3 * 16777216 + b4 * 4294967296 + b5
        * 1099511627776 + b6 * 281474976710656 + b7 * 72057594037927936) as u64;
    assert(le64_at(seq![b0, b1, b2, b3, b4, b5, b6, b7], 0) == v);
    assert(v == b0 as u64 + b1 as u64 * 256 + b2 as u64 * 65536 + b3 as u64 * 16777216 + b4 as u64
        * 4294967296 + b5 as u64 * 1099511627776 + b6 as u64 * 281474976710656 + b7 as u64
        * 72057594037927936);
    assert(v == b0 as u64 + b1 as u64 * 256 + b2 as u64 * 65536 + b3 as u64 * 16777216 + b4 as u64
        * 4294967296 + b5 as u64 * 1099511627776 + b6 as u64 * 281474976710656 + b7 as u64
        * 72057594037927936 ==> (v % 256) as u8 == b0 && ((v / 256) % 256) as u8 == b1 && ((v
        / 65536) % 256) as u8 == b2 && ((v / 16777216) % 256) as u8 == b3 && ((v / 4294967296)
        % 256) as u8 == b4 && ((v / 1099511627776) % 256) as u8 == b5 && ((v / 281474976710656)
        % 256) as u8 == b6 && (v / 72057594037927936) as u8 == b7) by (bit_vector);
    assert(le64(v) =~= seq![b0, b1, b2, b3, b4, b5, b6, b7]);
}

/// Reading a 16-bit value from its encoding at offset `i`.
pub proof fn lemma_parse_u16_enc(b: Seq<u8>, i: int, v: u16)
    requires
        0 <= i,
        i + 2 <= b.len(),
        b.subrange(i, i + 2) == le16(v),
    ensures
        parse_u16(b, i) == Some((v, i + 2)),
{
    lemma_le16_bytes(v);
    assert(b[i] == le16(v)[0] && b[i + 1] == le16(v)[1]);
}

pub proof fn lemma_parse_u32_enc(b: Seq<u8>, i: int, v: u32)
    requires
        0 <= i,
        i + 4 <= b.len(),
        b.subrange(i, i + 4) == le32(v),
    ensures
        parse_u32(b, i) == Some((v, i + 4)),
{
    lemma_le32_bytes(v);
    assert(b[i] == le32(v)[0] && b[i + 1] == le32(v)[1] && b[i + 2] == le32(v)[2] && b[i + 3]
        == le32(v)[3]);
}

pub proof fn lemma_parse_u64_enc(b: Seq<u8>, i: int, v: u64)
    requires
        0 <= i,
        i + 8 <= b.len(),
        b.subrange(i, i + 8) == le64(v),
    ensures
        parse_u64(b, i) == Some((v, i + 8)),
{
    lemma_le64_bytes(v);
    assert(b[i] == le64(v)[0] && b[i + 1] == le64(v)[1] && b[i + 2] == le64(v)[2] && b[i + 3]
        == le64(v)[3] && b[i + 4] == le64(v)[4] && b[i + 5] == le64(v)[5] && b[i + 6] == le64(
        v,
    )[6] && b[i + 7] == le64(v)[7]);
}

pub proof fn lemma_parse_bool_enc(b: Seq<u8>, i: int, v: bool)
    requires
        0 <= i,
        i + 1 <= b.len(),
        b.subrange(i, i + 1) == bool_byte(v),
    ensures
        parse_bool(b, i) == Some((v, i + 1)),
{
    assert(b[i] == bool_byte(v)[0]);
}

pub proof fn lemma_parse_str_enc(b: Seq<u8>, i: int, s: Seq<char>)
    requires
        0 <= i,
        str_fits(s),
        i + str_bytes(s).len() <= b.len(),
        b.subrange(i, i + str_bytes(s).len()) == str_bytes(s),
    ensures
        parse_str(b, i) == Some((s, i + str_bytes(s).len())),
{
    reveal(str_bytes);
    reveal(parse_str);
    let e = encode_utf8(s);
    let n = e.len() as u64;
    assert(b.subrange(i, i + 8) =~= b.subrange(i, i + str_bytes(s).len()).subrange(0, 8));
    assert(str_bytes(s).subrange(0, 8) =~= le64(n));
    lemma_parse_u64_enc(b, i, n);
    assert(b.subrange(i + 8, i + 8 + n) =~= b.subrange(i, i + str_bytes(s).len()).subrange(
        8,
        8 + n,
    ));
    assert(str_bytes(s).subrange(8, 8 + n) =~= e);
    vstd::utf8::encode_utf8_valid_utf8(s);
    vstd::utf8::encode_utf8_decode_utf8(s);
}

/// What is read at an offset is the encoding of the value read.
pub proof fn lemma_parse_u16_bytes(b: Seq<u8>, i: int)
    requires
        parse_u16(b, i) is Some,
    ensures
        b.subrange(i, i + 2) == le16(parse_u16(b, i).unwrap().0),
{
    lemma_le16_value(b[i], b[i + 1]);
    assert(b.subrange(i, i + 2) =~= seq![b[i], b[i + 1]]);
}

pub proof fn lemma_parse_u32_bytes(b: Seq<u8>, i: int)
    requires
        parse_u32(b, i) is Some,
    ensures
        b.subrange(i, i + 4) == le32(parse_u32(b, i).unwrap().0),
{
    lemma_le32_value(b[i], b[i + 1], b[i + 2], b[i + 3]);
    assert(b.subrange(i, i + 4) =~= seq![b[i], b[i + 1], b[i + 2], b[i + 3]]);
}

pub proof fn lemma_parse_u64_bytes(b: Seq<u8>, i: int)
    requires
        parse_u64(b, i) is Some,
    ensures
        b.subrange(i, i + 8) == le64(parse_u64(b, i).unwrap().0),
{
    lemma_le64_value(b[i], b[i + 1], b[i + 2], b[i + 3], b[i + 4], b[i + 5], b[i + 6], b[i + 7]);
    assert(b.subrange(i, i + 8) =~= seq![b[i], b[i + 1], b[i + 2], b[i + 3], b[i + 4], b[i + 5], b[i + 6], b[i + 7]]);
}

pub proof fn lemma_parse_bool_bytes(b: Seq<u8>, i: int)
    requires
        parse_bool(b, i) is Some,
    ensures
        b.subrange(i, i + 1) == bool_byte(parse_bool(b, i).unwrap().0),
{
    assert(b.subrange(i, i + 1) =~= bool_byte(parse_bool(b, i).unwrap().0));
}

pub proof fn lemma_parse_str_bytes(b: Seq<u8>, i: int)
    requires
        parse_str(b, i) is Some,
    ensures
        ({
            let (s, j) = parse_str(b, i).unwrap();
            &&& 0 <= i <= j <= b.len()
            &&& str_fits(s)
            &&& j == i + str_bytes(s).len()
            &&& b.subrange(i, j) == str_bytes(s)
        }),
{
    reveal(str_bytes);
    reveal(parse_str);
    let (n, j) = parse_u64(b, i).unwrap();
    let body = b.subrange(j, j + n);
    let s = decode_utf8(body);
    vstd::utf8::decode_utf8_encode_utf8(body);
    assert(encode_utf8(s) == body);
    assert(encode_utf8(s).len() == n);
    lemma_parse_u64_bytes(b, i);
    assert(b.subrange(i, j + n) =~= b.subrange(i, i + 8) + body);
}

} // verus!

verus! {

// ---------------------------------------------------------------------------
// The calls into bincode.

/// `bincode::serialize` of a `u16`: its two little-endian bytes. With the
/// default options (fixed-width integers, no size limit) writing into a
/// `Vec` cannot fail, so the result is `Ok`.
#[verifier::external_body]
fn bincode_ser_u16(v: u16) -> (res: Result<Vec<u8>, Box<bincode::ErrorKind>>)
    ensures
        res is Ok,
        res matches Ok(b) ==> b@ == le16(v),
{
    bincode::serialize(&v)
}

/// `bincode::serialize` of a `u32`: its four little-endian bytes; `Ok` as
/// for `u16`.
#[verifier::external_body]
fn bincode_ser_u32(v: u32) -> (res: Result<Vec<u8>, Box<bincode::ErrorKind>>)
    ensures
        res is Ok,
        res matches Ok(b) ==> b@ == le32(v),
{
    bincode::serialize(&v)
}

/// `bincode::serialize` of a `u64`: its eight little-endian bytes; `Ok` as
/// for `u16`.
#[verifier::external_body]
fn bincode_ser_u64(v: u64) -> (res: Result<Vec<u8>, Box<bincode::ErrorKind>>)
    ensures
        res is Ok,
        res matches Ok(b) ==> b@ == le64(v),
{
    bincode::serialize(&v)
}

/// `bincode::serialize` of a `bool`: one byte, 1 for true and 0 for false;
/// `Ok` as for `u16`.
#[verifier::external_body]
fn bincode_ser_bool(v: bool) -> (res: Result<Vec<u8>, Box<bincode::ErrorKind>>)
    ensures
        res is Ok,
        res matches Ok(b) ==> b@ == bool_byte(v),
{
    bincode::serialize(&v)
}

/// `bincode::serialize` of a `str`: the UTF-8 length as a little-endian
/// `u64`, then the UTF-8 bytes; `Ok` as for `u16`.
#[verifier::external_body]
fn bincode_ser_str(s: &str) -> (res: Result<Vec<u8>, Box<bincode::ErrorKind>>)
    ensures
        res is Ok,
        res matches Ok(b) ==> b@ == str_bytes(s@),
{
    bincode::serialize(s)
}

/// `bincode::deserialize::<u16>` of a buffer: the first two bytes read
/// little-endian, or an error when there are fewer than two.
#[verifier::external_body]
fn bincode_de_u16(s: &[u8]) -> (res: Result<u16, Box<bincode::ErrorKind>>)
    ensures
        res matches Ok(v) ==> parse_u16(s@, 0) == Some((v, 2int)),
        res is Err <==> parse_u16(s@, 0) is None,
{
    bincode::deserialize::<u16>(s)
}

/// `bincode::deserialize::<u32>` of a buffer: the first four bytes read
/// little-endian, or an error when there are fewer than four.
#[verifier::external_body]
fn bincode_de_u32(s: &[u8]) -> (res: Result<u32, Box<bincode::ErrorKind>>)
    ensures
        res matches Ok(v) ==> parse_u32(s@, 0) == Some((v, 4int)),
        res is Err <==> parse_u32(s@, 0) is None,
{
    bincode::deserialize::<u32>(s)
}

/// `bincode::deserialize::<u64>` of a buffer: the first eight bytes read
/// little-endian, or an error when there are fewer than eight.
#[verifier::external_body]
fn bincode_de_u64(s: &[u8]) -> (res: Result<u64, Box<bincode::ErrorKind>>)
    ensures
        res matches Ok(v) ==> parse_u64(s@, 0) == Some((v, 8int)),
        res is Err <==> parse_u64(s@, 0) is None,
{
    bincode::deserialize::<u64>(s)
}

/// `bincode::deserialize::<bool>` of a buffer: the first byte, which must
/// be 0 or 1; an error when the buffer is empty or the byte is another value.
#[verifier::external_body]
fn bincode_de_bool(s: &[u8]) -> (res: Result<bool, Box<bincode::ErrorKind>>)
    ensures
        res matches Ok(v) ==> parse_bool(s@, 0) == Some((v, 1int)),
        res is Err <==> parse_bool(s@, 0) is None,
{
    bincode::deserialize::<bool>(s)
}

/// `bincode::deserialize::<String>` of a buffer: a little-endian `u64`
/// length `n`, then `n` bytes that must be UTF-8; the string they spell, or
/// an error when the buffer is too short or the bytes are not UTF-8.
#[verifier::external_body]
fn bincode_de_string(s: &[u8]) -> (res: Result<String, Box<bincode::ErrorKind>>)
    ensures
        res matches Ok(v) ==> parse_str(s@, 0) is Some && parse_str(s@, 0).unwrap().0 == v@,
        res is Err <==> parse_str(s@, 0) is None,
{
    bincode::deserialize::<String>(s)
}

// ---------------------------------------------------------------------------
// Writing values at the end of a buffer.

/// Append the encoding of a 16-bit value.
pub fn write_u16(out: &mut Vec<u8>, v: u16)
    ensures
        final(out)@ == old(out)@ + le16(v),
{
    match bincode_ser_u16(v) {
        Ok(mut b) => out.append(&mut b),
        Err(_) => {},
    }
}

/// Append the encoding of a 32-bit value.
pub fn write_u32(out: &mut Vec<u8>, v: u32)
    ensures
        final(out)@ == old(out)@ + le32(v),
{
    match bincode_ser_u32(v) {
        Ok(mut b) => out.append(&mut b),
        Err(_) => {},
    }
}

/// Append the encoding of a 64-bit value.
pub fn write_u64(out: &mut Vec<u8>, v: u64)
    ensures
        final(out)@ == old(out)@ + le64(v),
{
    match bincode_ser_u64(v) {
        Ok(mut b) => out.append(&mut b),
        Err(_) => {},
    }
}

/// Append the encoding of a bool.
pub fn write_bool(out: &mut Vec<u8>, v: bool)
    ensures
        final(out)@ == old(out)@ + bool_byte(v),
{
    match bincode_ser_bool(v) {
        Ok(mut b) => out.append(&mut b),
        Err(_) => {},
    }
}

/// Append the encoding of a string.
pub fn write_str(out: &mut Vec<u8>, s: &str)
    ensures
        final(out)@ == old(out)@ + str_bytes(s@),
{
    match bincode_ser_str(s) {
        Ok(mut b) => out.append(&mut b),
        Err(_) => {},
    }
}

// ---------------------------------------------------------------------------
// Reading values at an offset of a buffer.

/// Read a 16-bit value at offset `i`; on success also the offset past it.
pub fn read_u16(b: &[u8], i: usize) -> (res: Result<(u16, usize), PeacockError>)
    requires
        i <= b@.len(),
    ensures
        match res {
            Ok((v, j)) => parse_u16(b@, i as int) == Some((v, j as int)),
            Err(e) => parse_u16(b@, i as int) is None && e is Bincode,
        },
{
    let s = &b[i..b.len()];
    proof {
        assert(s@ == b@.subrange(i as int, b@.len() as int));
        if i + 2 <= b@.len() {
            assert(s@[0] == b@[i as int] && s@[1] == b@[i + 1]);
        }
    }
    match bincode_de_u16(s) {
        Ok(v) => Ok((v, i + 2)),
        Err(e) => Err(PeacockError::Bincode(e)),
    }
}

/// Read a 32-bit value at offset `i`; on success also the offset past it.
pub fn read_u32(b: &[u8], i: usize) -> (res: Result<(u32, usize), PeacockError>)
    requires
        i <= b@.len(),
    ensures
        match res {
            Ok((v, j)) => parse_u32(b@, i as int) == Some((v, j as int)),
            Err(e) => parse_u32(b@, i as int) is None && e is Bincode,
        },
{
    let s = &b[i..b.len()];
    proof {
        assert(s@ == b@.subrange(i as int, b@.len() as int));
        if i + 4 <= b@.len() {
            assert(s@[0] == b@[i as int] && s@[1] == b@[i + 1] && s@[2] == b@[i + 2] && s@[3]
                == b@[i + 3]);
        }
    }
    match bincode_de_u32(s) {
        Ok(v) => Ok((v, i + 4)),
        Err(e) => Err(PeacockError::Bincode(e)),
    }
}

/// Read a 64-bit value at offset `i`; on success also the offset past it.
pub fn read_u64(b: &[u8], i: usize) -> (res: Result<(u64, usize), PeacockError>)
    requires
        i <= b@.len(),
    ensures
        match res {
            Ok((v, j)) => parse_u64(b@, i as int) == Some((v, j as int)),
            Err(e) => parse_u64(b@, i as int) is None && e is Bincode,
        },
{
    let s = &b[i..b.len()];
    proof {
        assert(s@ == b@.subrange(i as int, b@.len() as int));
        if i + 8 <= b@.len() {
            assert(s@[0] == b@[i as int] && s@[1] == b@[i + 1] && s@[2] == b@[i + 2] && s@[3]
                == b@[i + 3] && s@[4] == b@[i + 4] && s@[5] == b@[i + 5] && s@[6] == b@[i + 6]
                && s@[7] == b@[i + 7]);
        }
    }
    match bincode_de_u64(s) {
        Ok(v) => Ok((v, i + 8)),
        Err(e) => Err(PeacockError::Bincode(e)),
    }
}

/// Read a bool at offset `i`; on success also the offset past it.
pub fn read_bool(b: &[u8], i: usize) -> (res: Result<(bool, usize), PeacockError>)
    requires
        i <= b@.len(),
    ensures
        match res {
            Ok((v, j)) => parse_bool(b@, i as int) == Some((v, j as int)),
            Err(e) => parse_bool(b@, i as int) is None && e is Bincode,
        },
{
    let s = &b[i..b.len()];
    proof {
        assert(s@ == b@.subrange(i as int, b@.len() as int));
        if i + 1 <= b@.len() {
            assert(s@[0] == b@[i as int]);
        }
    }
    match bincode_de_bool(s) {
        Ok(v) => Ok((v, i + 1)),
        Err(e) => Err(PeacockError::Bincode(e)),
    }
}

/// Read a string at offset `i`; on success also the offset past it.
pub fn read_str(b: &[u8], i: usize) -> (res: Result<(String, usize), PeacockError>)
    requires
        i <= b@.len(),
    ensures
        match res {
            Ok((v, j)) => parse_str(b@, i as int) == Some((v@, j as int)) && i <= j <= b@.len(),
            Err(e) => parse_str(b@, i as int) is None && e is Bincode,
        },
{
    let s = &b[i..b.len()];
    let ghost sv = s@;
    proof {
        reveal(parse_str);
        assert(sv == b@.subrange(i as int, b@.len() as int));
        if i + 8 <= b@.len() {
            assert(sv[0] == b@[i as int] && sv[1] == b@[i + 1] && sv[2] == b@[i + 2] && sv[3]
                == b@[i + 3] && sv[4] == b@[i + 4] && sv[5] == b@[i + 5] && sv[6] == b@[i + 6]
                && sv[7] == b@[i + 7]);
            assert(parse_u64(sv, 0) == Some((le64_at(b@, i as int), 8int)));
            let n = le64_at(b@, i as int);
            if i + 8 + n <= b@.len() {
                assert(sv.subrange(8, 8 + n) =~= b@.subrange(i + 8, i + 8 + n));
            }
        }
    }
    match bincode_de_string(s) {
        Ok(v) => {
            proof {
                reveal(parse_str);
                lemma_parse_str_bytes(sv, 0);
                assert(parse_str(b@, i as int) == Some((v@, i + str_bytes(v@).len())));
                lemma_parse_str_bytes(b@, i as int);
            }
            let n = v.as_str().len();
            proof {
                reveal(str_bytes);
                assert(n == encode_utf8(v@).len());
            }
            Ok((v, i + 8 + n))
        },
        Err(e) => Err(PeacockError::Bincode(e)),
    }
}

} // verus!
