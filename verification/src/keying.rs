//! Composite-key derivation.
//!
//! A column name and a caller key are combined into the single key under
//! which the flat mapping stores the pair's value. The two fields are framed
//! unambiguously (the column's byte length leads, so no two distinct pairs
//! share a frame) and the frame is then digested to a fixed-length key.

use vstd::prelude::*;
use vstd::bytes::{lemma_auto_spec_u64_to_from_le_bytes, spec_u64_to_le_bytes, u64_to_le_bytes};
use vstd::string::StringSliceAdditionalSpecFns;

verus! {

/// The 32-byte BLAKE2b digest of a byte sequence. The digest is a function
/// of its input alone; its value is left unspecified here and is supplied at
/// run time by the `blake2-rfc` crate.
pub uninterp spec fn digest_of(data: Seq<u8>) -> Seq<u8>;

/// Unambiguous framing of a column name (as bytes) and a caller key: the
/// column's byte length, little endian, then the column bytes, then the key.
pub open spec fn frame_spec(col: Seq<u8>, key: Seq<u8>) -> Seq<u8> {
    spec_u64_to_le_bytes(col.len() as u64) + col + key
}

/// The composite key under which the pair (column, caller key) is stored in
/// the flat mapping.
pub open spec fn composite_key(col: Seq<u8>, key: Seq<u8>) -> Seq<u8> {
    digest_of(frame_spec(col, key))
}

/// Relies on `blake2_rfc::blake2b::blake2b`: with digest length 32 and an
/// empty hash key it never panics, and returns the 32-byte BLAKE2b digest of
/// `data`, a deterministic function of `data` alone.
#[verifier::external_body]
pub(crate) fn digest32(data: &[u8]) -> (r: Vec<u8>)
    ensures
        r@ == digest_of(data@),
        r@.len() == 32,
{
    blake2_rfc::blake2b::blake2b(32, &[], data).as_bytes().to_vec()
}

/// Builds the frame that `frame_spec` describes.
pub(crate) fn frame(col: &str, key: &[u8]) -> (r: Vec<u8>)
    ensures
        r@ == frame_spec(col.spec_bytes(), key@),
{
    let col_bytes: &[u8] = col.as_bytes();
    let n: usize = col_bytes.len();
    let mut r: Vec<u8> = u64_to_le_bytes(n as u64);
    let ghost prefix: Seq<u8> = spec_u64_to_le_bytes((col.spec_bytes().len()) as u64);
    assert(r@ == prefix);
    let mut i: usize = 0;
    while i < n
        invariant
            i <= n,
            n == col_bytes@.len(),
            col_bytes@ == col.spec_bytes(),
            r@ == prefix + col_bytes@.subrange(0, i as int),
        decreases n - i,
    {
        r.push(col_bytes[i]);
        assert(r@ =~= prefix + col_bytes@.subrange(0, i + 1));
        i = i + 1;
    }
    assert(col_bytes@.subrange(0, n as int) =~= col_bytes@);
    let mut j: usize = 0;
    while j < key.len()
        invariant
            j <= key@.len(),
            col_bytes@ == col.spec_bytes(),
            r@ == prefix + col_bytes@ + key@.subrange(0, j as int),
        decreases key@.len() - j,
    {
        r.push(key[j]);
        assert(r@ =~= prefix + col_bytes@ + key@.subrange(0, j + 1));
        j = j + 1;
    }
    assert(key@.subrange(0, key@.len() as int) =~= key@);
    r
}

/// The framing is injective: two (column, key) pairs that frame to the same
/// byte sequence are the same pair. This is what makes the derivation
/// collision-resistant at the level of the digest's input — a boundary shift
/// between column and key can never alias another pair's frame.
pub proof fn lemma_frame_injective(c1: Seq<u8>, k1: Seq<u8>, c2: Seq<u8>, k2: Seq<u8>)
    requires
        c1.len() <= u64::MAX,
        c2.len() <= u64::MAX,
        frame_spec(c1, k1) == frame_spec(c2, k2),
    ensures
        c1 == c2,
        k1 == k2,
{
    lemma_auto_spec_u64_to_from_le_bytes();
    let f1 = frame_spec(c1, k1);
    let f2 = frame_spec(c2, k2);
    let p1 = spec_u64_to_le_bytes(c1.len() as u64);
    let p2 = spec_u64_to_le_bytes(c2.len() as u64);
    assert(p1.len() == 8);
    assert(p2.len() == 8);
    assert(f1.subrange(0, 8) =~= p1);
    assert(f2.subrange(0, 8) =~= p2);
    assert(p1 == p2);
    assert(c1.len() as u64 == c2.len() as u64);
    assert(c1.len() == c2.len());
    let n = c1.len() as int;
    assert(f1.subrange(8, 8 + n) =~= c1);
    assert(f2.subrange(8, 8 + n) =~= c2);
    assert(f1.subrange(8 + n, f1.len() as int) =~= k1);
    assert(f2.subrange(8 + n, f2.len() as int) =~= k2);
}

/// Distinct (column, key) pairs never share a frame, so the digest of the
/// frame inherits the digest's own collision resistance: a collision between
/// two pairs' composite keys needs a collision of the digest itself, never a
/// mere boundary shift between column and key.
pub proof fn lemma_frame_unambiguous(c1: Seq<u8>, k1: Seq<u8>, c2: Seq<u8>, k2: Seq<u8>)
    requires
        c1.len() <= u64::MAX,
        c2.len() <= u64::MAX,
        c1 != c2 || k1 != k2,
    ensures
        frame_spec(c1, k1) != frame_spec(c2, k2),
{
    if frame_spec(c1, k1) == frame_spec(c2, k2) {
        lemma_frame_injective(c1, k1, c2, k2);
    }
}

} // verus!
