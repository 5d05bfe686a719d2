//! Digests of byte buffers (MD5, SHA-1, SHA-256), computed by the `md-5`,
//! `sha1` and `sha2` crates.

use md5::Md5;
use sha1::Sha1;
use sha2::{Digest, Sha256};
use vstd::prelude::*;

verus! {

/// The MD5 digest of `data`.
pub uninterp spec fn md5_digest(data: Seq<u8>) -> Seq<u8>;

/// The SHA-1 digest of `data`.
pub uninterp spec fn sha1_digest(data: Seq<u8>) -> Seq<u8>;

/// The SHA-256 digest of `data`.
pub uninterp spec fn sha256_digest(data: Seq<u8>) -> Seq<u8>;

/// Calls `<md5::Md5 as digest::Digest>::digest` on `data` and converts the
/// 16-byte output array. Claimed: the result is the digest of the bytes
/// of `data`, a function of those bytes alone.
#[verifier::external_body]
fn md5_of(data: &[u8]) -> (r: [u8; 16])
    ensures
        r@ == md5_digest(data@),
{
    Md5::digest(data).into()
}

/// Calls `<sha1::Sha1 as digest::Digest>::digest` on `data` and converts
/// the 20-byte output array. Claimed: the result is the digest of the
/// bytes of `data`, a function of those bytes alone.
#[verifier::external_body]
fn sha1_of(data: &[u8]) -> (r: [u8; 20])
    ensures
        r@ == sha1_digest(data@),
{
    Sha1::digest(data).into()
}

/// Calls `<sha2::Sha256 as digest::Digest>::digest` on `data` and converts
/// the 32-byte output array. Claimed: the result is the digest of the
/// bytes of `data`, a function of those bytes alone.
#[verifier::external_body]
fn sha256_of(data: &[u8]) -> (r: [u8; 32])
    ensures
        r@ == sha256_digest(data@),
{
    Sha256::digest(data).into()
}

/// The MD5 digest of `data`.
pub fn md5(data: &[u8]) -> (r: [u8; 16])
    ensures
        r@ == md5_digest(data@),
{
    md5_of(data)
}

/// The SHA-1 digest of `data`.
pub fn sha1(data: &[u8]) -> (r: [u8; 20])
    ensures
        r@ == sha1_digest(data@),
{
    sha1_of(data)
}

/// The SHA-256 digest of `data`.
pub fn sha256(data: &[u8]) -> (r: [u8; 32])
    ensures
        r@ == sha256_digest(data@),
{
    sha256_of(data)
}

/// The number of occurrences of `v` in `s`.
pub open spec fn count_byte(s: Seq<u8>, v: u8) -> nat
    decreases s.len(),
{
    if s.len() == 0 {
        0
    } else {
        count_byte(s.drop_last(), v) + if s.last() == v {
            1nat
        } else {
            0nat
        }
    }
}

proof fn lemma_count_byte_bound(s: Seq<u8>, v: u8)
    ensures
        count_byte(s, v) <= s.len(),
    decreases s.len(),
{
    if s.len() > 0 {
        lemma_count_byte_bound(s.drop_last(), v);
    }
}

/// The byte frequencies of `data`: entry `v` counts the bytes equal to
/// `v` (the counts from which the Shannon entropy of `data` is computed).
pub fn byte_counts(data: &[u8]) -> (r: Vec<u64>)
    ensures
        r@.len() == 256,
        forall|v: u8| #[trigger] r@[v as int] == count_byte(data@, v),
{
    let mut counts: Vec<u64> = Vec::new();
    let mut k: usize = 0;
    while k < 256
        invariant
            k <= 256,
            counts@.len() == k,
            forall|j: int| 0 <= j < k ==> counts@[j] == 0,
        decreases 256 - k,
    {
        counts.push(0);
        k = k + 1;
    }
    let mut i: usize = 0;
    while i < data.len()
        invariant
            i <= data@.len(),
            counts@.len() == 256,
            forall|v: u8| #[trigger] counts@[v as int] == count_byte(data@.subrange(0, i as int), v),
        decreases data@.len() - i,
    {
        let b = data[i];
        proof {
            assert(data@.subrange(0, i + 1).drop_last() =~= data@.subrange(0, i as int));
            lemma_count_byte_bound(data@.subrange(0, i as int), b);
        }
        let c = counts[b as usize];
        let ghost before = counts@;
        counts.set(b as usize, c + 1);
        proof {
            assert forall|v: u8| #[trigger] counts@[v as int] == count_byte(
                data@.subrange(0, i + 1),
                v,
            ) by {
                if v != b {
                    assert(counts@[v as int] == before[v as int]);
                }
            }
        }
        i = i + 1;
    }
    assert(data@.subrange(0, i as int) =~= data@);
    counts
}

} // verus!
