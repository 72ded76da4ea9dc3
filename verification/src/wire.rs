//! Byte-level wire primitives: big-endian integers and length-prefixed byte
//! fields, as spec-level encodings with executable writers and readers, and
//! the lemmas that make each reader invert its writer.

use vstd::prelude::*;
use crate::packet::ProtocolError;

verus! {

/// Big-endian encoding of a 16-bit integer.
pub open spec fn enc_u16(x: u16) -> Seq<u8> {
    seq![((x >> 8) & 0xff) as u8, (x & 0xff) as u8]
}

/// Big-endian encoding of a 32-bit integer.
pub open spec fn enc_u32(x: u32) -> Seq<u8> {
    seq![
        ((x >> 24) & 0xff) as u8,
        ((x >> 16) & 0xff) as u8,
        ((x >> 8) & 0xff) as u8,
        (x & 0xff) as u8,
    ]
}

/// Big-endian encoding of a 64-bit integer.
pub open spec fn enc_u64(x: u64) -> Seq<u8> {
    seq![
        ((x >> 56) & 0xff) as u8,
        ((x >> 48) & 0xff) as u8,
        ((x >> 40) & 0xff) as u8,
        ((x >> 32) & 0xff) as u8,
        ((x >> 24) & 0xff) as u8,
        ((x >> 16) & 0xff) as u8,
        ((x >> 8) & 0xff) as u8,
        (x & 0xff) as u8,
    ]
}

/// A length-prefixed byte field: four length bytes, then the bytes.
pub open spec fn enc_bytes(b: Seq<u8>) -> Seq<u8> {
    enc_u32(b.len() as u32) + b
}

/// The 16-bit big-endian value read at offset `i`.
pub open spec fn dec_u16_at(b: Seq<u8>, i: int) -> u16 {
    ((b[i] as u16) << 8) | (b[i + 1] as u16)
}

/// The 32-bit big-endian value read at offset `i`.
pub open spec fn dec_u32_at(b: Seq<u8>, i: int) -> u32 {
    ((b[i] as u32) << 24) | ((b[i + 1] as u32) << 16) | ((b[i + 2] as u32) << 8) | (b[i
        + 3] as u32)
}

/// The 64-bit big-endian value read at offset `i`.
pub open spec fn dec_u64_at(b: Seq<u8>, i: int) -> u64 {
    ((b[i] as u64) << 56) | ((b[i + 1] as u64) << 48) | ((b[i + 2] as u64) << 40) | ((b[i
        + 3] as u64) << 32) | ((b[i + 4] as u64) << 24) | ((b[i + 5] as u64) << 16) | ((b[i
        + 6] as u64) << 8) | (b[i + 7] as u64)
}

/// Reading two bytes where `enc_u16(x)` was laid down gives back `x`.
pub proof fn lemma_dec_u16(b: Seq<u8>, i: int, x: u16)
    requires
        0 <= i,
        i + 2 <= b.len(),
        b.subrange(i, i + 2) == enc_u16(x),
    ensures
        dec_u16_at(b, i) == x,
{
    assert(b[i] == enc_u16(x)[0] && b[i + 1] == enc_u16(x)[1]) by {
        assert(b.subrange(i, i + 2)[0] == b[i]);
        assert(b.subrange(i, i + 2)[1] == b[i + 1]);
    }
    let b0: u8 = b[i];
    let b1: u8 = b[i + 1];
    assert((((b0 as u16) << 8) | (b1 as u16)) == x) by (bit_vector)
        requires
            b0 == ((x >> 8) & 0xff) as u8,
            b1 == (x & 0xff) as u8,
    ;
}

/// Reading four bytes where `enc_u32(x)` was laid down gives back `x`.
pub proof fn lemma_dec_u32(b: Seq<u8>, i: int, x: u32)
    requires
        0 <= i,
        i + 4 <= b.len(),
        b.subrange(i, i + 4) == enc_u32(x),
    ensures
        dec_u32_at(b, i) == x,
{
    assert(b[i] == enc_u32(x)[0] && b[i + 1] == enc_u32(x)[1] && b[i + 2] == enc_u32(x)[2] && b[i
        + 3] == enc_u32(x)[3]) by {
        assert(b.subrange(i, i + 4)[0] == b[i]);
        assert(b.subrange(i, i + 4)[1] == b[i + 1]);
        assert(b.subrange(i, i + 4)[2] == b[i + 2]);
        assert(b.subrange(i, i + 4)[3] == b[i + 3]);
    }
    let b0: u8 = b[i];
    let b1: u8 = b[i + 1];
    let b2: u8 = b[i + 2];
    let b3: u8 = b[i + 3];
    assert((((b0 as u32) << 24) | ((b1 as u32) << 16) | ((b2 as u32) << 8) | (b3 as u32)) == x)
        by (bit_vector)
        requires
            b0 == ((x >> 24) & 0xff) as u8,
            b1 == ((x >> 16) & 0xff) as u8,
            b2 == ((x >> 8) & 0xff) as u8,
            b3 == (x & 0xff) as u8,
    ;
}

/// Reading eight bytes where `enc_u64(x)` was laid down gives back `x`.
pub proof fn lemma_dec_u64(b: Seq<u8>, i: int, x: u64)
    requires
        0 <= i,
        i + 8 <= b.len(),
        b.subrange(i, i + 8) == enc_u64(x),
    ensures
        dec_u64_at(b, i) == x,
{
    assert(forall|k: int| 0 <= k < 8 ==> b[i + k] == #[trigger] b.subrange(i, i + 8)[k]);
    let b0: u8 = b[i];
    let b1: u8 = b[i + 1];
    let b2: u8 = b[i + 2];
    let b3: u8 = b[i + 3];
    let b4: u8 = b[i + 4];
    let b5: u8 = b[i + 5];
    let b6: u8 = b[i + 6];
    let b7: u8 = b[i + 7];
    assert((((b0 as u64) << 56) | ((b1 as u64) << 48) | ((b2 as u64) << 40) | ((b3 as u64) << 32)
        | ((b4 as u64) << 24) | ((b5 as u64) << 16) | ((b6 as u64) << 8) | (b7 as u64)) == x)
        by (bit_vector)
        requires
            b0 == ((x >> 56) & 0xff) as u8,
            b1 == ((x >> 48) & 0xff) as u8,
            b2 == ((x >> 40) & 0xff) as u8,
            b3 == ((x >> 32) & 0xff) as u8,
            b4 == ((x >> 24) & 0xff) as u8,
            b5 == ((x >> 16) & 0xff) as u8,
            b6 == ((x >> 8) & 0xff) as u8,
            b7 == (x & 0xff) as u8,
    ;
}

/// Appends `enc_u16(x)` to `out`.
pub fn put_u16(out: &mut Vec<u8>, x: u16)
    ensures
        final(out)@ == old(out)@ + enc_u16(x),
{
    proof {
        assert((x >> 8) & 0xff < 256 && x & 0xff < 256) by (bit_vector);
    }
    out.push(((x >> 8) & 0xff) as u8);
    out.push((x & 0xff) as u8);
    assert(out@ =~= old(out)@ + enc_u16(x));
}

/// Appends `enc_u32(x)` to `out`.
pub fn put_u32(out: &mut Vec<u8>, x: u32)
    ensures
        final(out)@ == old(out)@ + enc_u32(x),
{
    proof {
        assert((x >> 24) & 0xff < 256 && (x >> 16) & 0xff < 256 && (x >> 8) & 0xff < 256 && x
            & 0xff < 256) by (bit_vector);
    }
    out.push(((x >> 24) & 0xff) as u8);
    out.push(((x >> 16) & 0xff) as u8);
    out.push(((x >> 8) & 0xff) as u8);
    out.push((x & 0xff) as u8);
    assert(out@ =~= old(out)@ + enc_u32(x));
}

/// Appends `enc_u64(x)` to `out`.
pub fn put_u64(out: &mut Vec<u8>, x: u64)
    ensures
        final(out)@ == old(out)@ + enc_u64(x),
{
    proof {
        assert((x >> 56) & 0xff < 256 && (x >> 48) & 0xff < 256 && (x >> 40) & 0xff < 256 && (x
            >> 32) & 0xff < 256 && (x >> 24) & 0xff < 256 && (x >> 16) & 0xff < 256 && (x >> 8)
            & 0xff < 256 && x & 0xff < 256) by (bit_vector);
    }
    out.push(((x >> 56) & 0xff) as u8);
    out.push(((x >> 48) & 0xff) as u8);
    out.push(((x >> 40) & 0xff) as u8);
    out.push(((x >> 32) & 0xff) as u8);
    out.push(((x >> 24) & 0xff) as u8);
    out.push(((x >> 16) & 0xff) as u8);
    out.push(((x >> 8) & 0xff) as u8);
    out.push((x & 0xff) as u8);
    assert(out@ =~= old(out)@ + enc_u64(x));
}

/// Appends the bytes of `src` to `out`.
pub fn push_all(out: &mut Vec<u8>, src: &Vec<u8>)
    ensures
        final(out)@ == old(out)@ + src@,
{
    let n: usize = src.len();
    let mut k: usize = 0;
    while k < n
        invariant
            n == src@.len(),
            k <= n,
            out@ == old(out)@ + src@.subrange(0, k as int),
        decreases n - k,
    {
        out.push(src[k]);
        k = k + 1;
        assert(out@ =~= old(out)@ + src@.subrange(0, k as int));
    }
    assert(src@.subrange(0, n as int) =~= src@);
}

/// Appends `enc_bytes(src@)` to `out`: a four-byte length, then the bytes.
pub fn put_bytes(out: &mut Vec<u8>, src: &Vec<u8>)
    requires
        src@.len() < 0x1_0000_0000,
    ensures
        final(out)@ == old(out)@ + enc_bytes(src@),
{
    put_u32(out, src.len() as u32);
    push_all(out, src);
    assert(out@ =~= old(out)@ + enc_bytes(src@));
}

/// Reads the 16-bit big-endian value at offset `i`.
pub fn read_u16(b: &Vec<u8>, i: usize) -> (r: u16)
    requires
        i + 2 <= b@.len(),
    ensures
        r == dec_u16_at(b@, i as int),
{
    let n: usize = b.len();
    assert(i + 2 <= n);
    ((b[i] as u16) << 8) | (b[i + 1] as u16)
}

/// Reads the 32-bit big-endian value at offset `i`.
pub fn read_u32(b: &Vec<u8>, i: usize) -> (r: u32)
    requires
        i + 4 <= b@.len(),
    ensures
        r == dec_u32_at(b@, i as int),
{
    let n: usize = b.len();
    assert(i + 4 <= n);
    ((b[i] as u32) << 24) | ((b[i + 1] as u32) << 16) | ((b[i + 2] as u32) << 8) | (b[i
        + 3] as u32)
}

/// Reads the 64-bit big-endian value at offset `i`.
pub fn read_u64(b: &Vec<u8>, i: usize) -> (r: u64)
    requires
        i + 8 <= b@.len(),
    ensures
        r == dec_u64_at(b@, i as int),
{
    let n: usize = b.len();
    assert(i + 8 <= n);
    ((b[i] as u64) << 56) | ((b[i + 1] as u64) << 48) | ((b[i + 2] as u64) << 40) | ((b[i
        + 3] as u64) << 32) | ((b[i + 4] as u64) << 24) | ((b[i + 5] as u64) << 16) | ((b[i
        + 6] as u64) << 8) | (b[i + 7] as u64)
}

/// Copies `n` bytes of `b` starting at offset `i` into a fresh vector.
pub fn read_bytes(b: &Vec<u8>, i: usize, n: usize) -> (r: Vec<u8>)
    requires
        i + n <= b@.len(),
    ensures
        r@ == b@.subrange(i as int, i + n),
{
    let total: usize = b.len();
    let mut r: Vec<u8> = Vec::new();
    let mut k: usize = 0;
    while k < n
        invariant
            total == b@.len(),
            i + n <= b@.len(),
            k <= n,
            r@ == b@.subrange(i as int, i + k),
        decreases n - k,
    {
        r.push(b[i + k]);
        k = k + 1;
        assert(r@ =~= b@.subrange(i as int, i + k));
    }
    r
}

/// The middle piece of a three-way concatenation occupies exactly the
/// window after the prefix.
pub proof fn lemma_subrange_mid(pre: Seq<u8>, mid: Seq<u8>, rest: Seq<u8>)
    ensures
        (pre + mid + rest).subrange(pre.len() as int, pre.len() + mid.len() as int) == mid,
{
    assert((pre + mid + rest).subrange(pre.len() as int, pre.len() + mid.len() as int) =~= mid);
}

/// The spec-level result of parsing a length-prefixed byte field at offset
/// `i` of `b`, whose length may not exceed `max`: the field's bytes and the
/// offset just past them, or the error the frame deserves.
pub open spec fn parse_bytes_at(b: Seq<u8>, i: int, max: int) -> Result<
    (Seq<u8>, int),
    ProtocolError,
> {
    if i + 4 > b.len() {
        Err(ProtocolError::TruncatedFrame)
    } else {
        let n: int = dec_u32_at(b, i) as int;
        if n > max {
            Err(ProtocolError::MalformedField)
        } else if i + 4 + n > b.len() {
            Err(ProtocolError::TruncatedFrame)
        } else {
            Ok((b.subrange(i + 4, i + 4 + n), i + 4 + n))
        }
    }
}

/// Parsing where `enc_bytes(v)` was laid down yields `v` and the offset just
/// past it.
pub proof fn lemma_parse_bytes(b: Seq<u8>, i: int, v: Seq<u8>, max: int)
    requires
        0 <= i,
        i + 4 + v.len() <= b.len(),
        v.len() <= max,
        v.len() < 0x1_0000_0000,
        b.subrange(i, i + 4 + v.len()) == enc_bytes(v),
    ensures
        parse_bytes_at(b, i, max) == Ok::<_, ProtocolError>((v, i + 4 + v.len())),
{
    let w = b.subrange(i, i + 4 + v.len());
    assert(b.subrange(i, i + 4) =~= w.subrange(0, 4));
    assert(w.subrange(0, 4) =~= enc_u32(v.len() as u32));
    lemma_dec_u32(b, i, v.len() as u32);
    assert(dec_u32_at(b, i) == v.len());
    assert(b.subrange(i + 4, i + 4 + v.len()) =~= w.subrange(4, 4 + v.len() as int));
    assert(w.subrange(4, 4 + v.len() as int) =~= v);
}

} // verus!
