//! The big-endian wire primitives of the class file format, at the
//! specification level: for each fixed-width integer a parser `sp_*` that
//! consumes a prefix of a byte sequence and returns the value together with
//! the remaining bytes, an encoder `se_*` that produces that prefix, and a
//! lemma that parsing an encoding yields the encoded value back.

use vstd::prelude::*;

verus! {

/// Parse one byte.
pub open spec fn sp_u8(b: Seq<u8>) -> Option<(u8, Seq<u8>)> {
    if b.len() >= 1 {
        Some((b[0], b.skip(1)))
    } else {
        None
    }
}

/// Encode one byte.
pub open spec fn se_u8(v: u8) -> Seq<u8> {
    seq![v]
}

/// Parse a big-endian 16-bit integer.
pub open spec fn sp_u16(b: Seq<u8>) -> Option<(u16, Seq<u8>)> {
    if b.len() >= 2 {
        Some((((b[0] as int) * 0x100 + (b[1] as int)) as u16, b.skip(2)))
    } else {
        None
    }
}

/// Encode a big-endian 16-bit integer.
pub open spec fn se_u16(v: u16) -> Seq<u8> {
    seq![(v / 0x100) as u8, (v % 0x100) as u8]
}

/// Parse a big-endian 32-bit integer.
pub open spec fn sp_u32(b: Seq<u8>) -> Option<(u32, Seq<u8>)> {
    if b.len() >= 4 {
        Some(
            (
                ((b[0] as int) * 0x100_0000 + (b[1] as int) * 0x1_0000 + (b[2] as int) * 0x100 + (
                b[3] as int)) as u32,
                b.skip(4),
            ),
        )
    } else {
        None
    }
}

/// Encode a big-endian 32-bit integer.
pub open spec fn se_u32(v: u32) -> Seq<u8> {
    seq![
        (v / 0x100_0000) as u8,
        ((v / 0x1_0000) % 0x100) as u8,
        ((v / 0x100) % 0x100) as u8,
        (v % 0x100) as u8,
    ]
}

/// Parse a big-endian 64-bit integer: two 32-bit halves, high half first.
pub open spec fn sp_u64(b: Seq<u8>) -> Option<(u64, Seq<u8>)> {
    match sp_u32(b) {
        None => None,
        Some((hi, r)) => match sp_u32(r) {
            None => None,
            Some((lo, r2)) => Some((((hi as int) * 0x1_0000_0000 + (lo as int)) as u64, r2)),
        },
    }
}

/// Encode a big-endian 64-bit integer: two 32-bit halves, high half first.
pub open spec fn se_u64(v: u64) -> Seq<u8> {
    se_u32((v / 0x1_0000_0000) as u32) + se_u32((v % 0x1_0000_0000) as u32)
}

/// Parse a run of exactly `n` raw bytes.
pub open spec fn sp_bytes(b: Seq<u8>, n: int) -> Option<(Seq<u8>, Seq<u8>)> {
    if 0 <= n <= b.len() {
        Some((b.take(n), b.skip(n)))
    } else {
        None
    }
}

pub proof fn lemma_rt_u8(v: u8, rest: Seq<u8>)
    ensures
        sp_u8(se_u8(v) + rest) == Some((v, rest)),
{
    let b = se_u8(v) + rest;
    assert(b[0] == v);
    assert(b.skip(1) =~= rest);
}

pub proof fn lemma_rt_u16(v: u16, rest: Seq<u8>)
    ensures
        sp_u16(se_u16(v) + rest) == Some((v, rest)),
{
    let b = se_u16(v) + rest;
    assert(b[0] == v / 0x100);
    assert(b[1] == v % 0x100);
    assert((v / 0x100) as int * 0x100 + (v % 0x100) as int == v as int);
    assert(b.skip(2) =~= rest);
}

pub proof fn lemma_rt_u32(v: u32, rest: Seq<u8>)
    ensures
        sp_u32(se_u32(v) + rest) == Some((v, rest)),
{
    let b = se_u32(v) + rest;
    assert(b[0] == v / 0x100_0000);
    assert(b[1] == (v / 0x1_0000) % 0x100);
    assert(b[2] == (v / 0x100) % 0x100);
    assert(b[3] == v % 0x100);
    assert((v / 0x100_0000) as int * 0x100_0000 + ((v / 0x1_0000) % 0x100) as int * 0x1_0000 + ((v
        / 0x100) % 0x100) as int * 0x100 + (v % 0x100) as int == v as int);
    assert(b.skip(4) =~= rest);
}

pub proof fn lemma_rt_u64(v: u64, rest: Seq<u8>)
    ensures
        sp_u64(se_u64(v) + rest) == Some((v, rest)),
{
    let hi = (v / 0x1_0000_0000) as u32;
    let lo = (v % 0x1_0000_0000) as u32;
    assert(se_u64(v) + rest =~= se_u32(hi) + (se_u32(lo) + rest));
    lemma_rt_u32(hi, se_u32(lo) + rest);
    lemma_rt_u32(lo, rest);
    assert((hi as int) * 0x1_0000_0000 + (lo as int) == v as int);
}

/// Concatenation of byte sequences is associative.
pub proof fn seq_assoc(a: Seq<u8>, b: Seq<u8>, c: Seq<u8>)
    ensures
        (a + b) + c == a + (b + c),
{
    assert((a + b) + c =~= a + (b + c));
}

pub proof fn lemma_rt_bytes(data: Seq<u8>, rest: Seq<u8>)
    ensures
        sp_bytes(data + rest, data.len() as int) == Some((data, rest)),
{
    let b = data + rest;
    assert(b.take(data.len() as int) =~= data);
    assert(b.skip(data.len() as int) =~= rest);
}

} // verus!
