//! The hash functions that commitments are built from, and domain-separated hashing.
use vstd::prelude::*;

verus! {

/// The 32-byte BLAKE2b digest of `input` (BLAKE2b with a 32-byte output length, no key).
pub uninterp spec fn blake2b_256(input: Seq<u8>) -> Seq<u8>;

/// The SHA-256 digest of `input`.
pub uninterp spec fn sha256(input: Seq<u8>) -> Seq<u8>;

/// The Keccak-256 digest of `input` (the original Keccak padding, a 32-byte output).
pub uninterp spec fn keccak256(input: Seq<u8>) -> Seq<u8>;

/// Calls `blake2b_simd::Params::hash` with the output length set to 32 bytes (by
/// `Params::hash_length`, which accepts 1 to 64). The digest is a function of the input bytes
/// alone; nothing else about it is stated.
#[verifier::external_body]
pub(crate) fn blake2b_256_digest(input: &[u8]) -> (r: [u8; 32])
    ensures
        r@ == blake2b_256(input@),
{
    let mut params = blake2b_simd::Params::new();
    params.hash_length(32);
    let hash = params.hash(input);
    let mut out = [0u8; 32];
    out.copy_from_slice(hash.as_bytes());
    out
}

/// Calls `<sha2::Sha256 as sha2::Digest>::digest`. The digest is a function of the input bytes
/// alone; nothing else about it is stated.
#[verifier::external_body]
pub(crate) fn sha256_digest(input: &[u8]) -> (r: [u8; 32])
    ensures
        r@ == sha256(input@),
{
    <sha2::Sha256 as sha2::Digest>::digest(input).into()
}

/// Calls `tiny_keccak::Keccak::v256`, absorbs `input` with `Hasher::update` and squeezes 32
/// bytes with `Hasher::finalize`. The digest is a function of the input bytes alone; nothing
/// else about it is stated.
#[verifier::external_body]
pub(crate) fn keccak256_digest(input: &[u8]) -> (r: [u8; 32])
    ensures
        r@ == keccak256(input@),
{
    let mut hasher = tiny_keccak::Keccak::v256();
    tiny_keccak::Hasher::update(&mut hasher, input);
    let mut out = [0u8; 32];
    tiny_keccak::Hasher::finalize(hasher, &mut out);
    out
}

/// `a` followed by `b`, in a fresh vector.
pub fn concat(a: &[u8], b: &[u8]) -> (r: Vec<u8>)
    ensures
        r@ == a@ + b@,
{
    let mut out: Vec<u8> = Vec::new();
    let mut i: usize = 0;
    while i < a.len()
        invariant
            0 <= i <= a@.len(),
            out@ == a@.take(i as int),
        decreases a@.len() - i,
    {
        out.push(a[i]);
        i = i + 1;
        assert(out@ =~= a@.take(i as int));
    }
    let mut j: usize = 0;
    while j < b.len()
        invariant
            0 <= j <= b@.len(),
            out@ == a@ + b@.take(j as int),
        decreases b@.len() - j,
    {
        out.push(b[j]);
        j = j + 1;
        assert(out@ =~= a@ + b@.take(j as int));
    }
    assert(a@.take(a@.len() as int) =~= a@);
    assert(b@.take(b@.len() as int) =~= b@);
    out
}

/// The domain-separated BLAKE2b-256 hash: the digest of `domain` followed by `bytes`.
pub fn hash_domain(domain: &[u8], bytes: &[u8]) -> (r: [u8; 32])
    ensures
        r@ == blake2b_256(domain@ + bytes@),
{
    let input = concat(domain, bytes);
    blake2b_256_digest(input.as_slice())
}

/// The domain-separated SHA-256 hash of the ZkRefine statement: the digest of `domain`
/// followed by `bytes`.
pub fn zkrefine_hash(domain: &[u8], bytes: &[u8]) -> (r: [u8; 32])
    ensures
        r@ == sha256(domain@ + bytes@),
{
    let input = concat(domain, bytes);
    sha256_digest(input.as_slice())
}

} // verus!
