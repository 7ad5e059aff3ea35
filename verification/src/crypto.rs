//! Byte-level primitives shared by the whole library: the SHA-256 digest,
//! the seeded ChaCha20 pad, and verified XOR combinators.
use rand::{RngCore, SeedableRng};
use sha2::Digest;
use vstd::prelude::*;

verus! {

/// The SHA-256 digest of a byte sequence. The digest is a function of the
/// input alone; nothing here states what its bytes are.
pub uninterp spec fn sha256_of(data: Seq<u8>) -> Seq<u8>;

/// Relies on sha2's Sha256: the digest is 32 bytes and depends on the
/// input bytes alone.
#[verifier::external_body]
pub fn sha256_digest(data: &[u8]) -> (r: Vec<u8>)
    ensures
        r@ == sha256_of(data@),
        r@.len() == 32,
{
    let mut hasher = sha2::Sha256::new();
    hasher.update(data);
    hasher.finalize().to_vec()
}

/// The keystream that a ChaCha20 generator seeded from a 64-bit value
/// produces: a function of the seed and the length alone.
pub uninterp spec fn chacha_stream(seed: u64, len: nat) -> Seq<u8>;

/// Relies on rand_chacha's ChaCha20Rng: seeded from a u64 it is a
/// deterministic generator, so the bytes depend on the seed and the
/// requested length alone.
#[verifier::external_body]
pub fn chacha_pad(seed: u64, len: usize) -> (r: Vec<u8>)
    ensures
        r@ == chacha_stream(seed, len as nat),
        r@.len() == len,
{
    let mut rng = rand_chacha::ChaCha20Rng::seed_from_u64(seed);
    let mut buf = vec![0u8; len];
    rng.fill_bytes(&mut buf);
    buf
}

/// Pointwise XOR of two sequences of equal length.
pub open spec fn spec_xor_bytes(a: Seq<u8>, b: Seq<u8>) -> Seq<u8> {
    Seq::new(a.len(), |i: int| a[i] ^ b[i])
}

/// XOR of a sequence with a key cycled over it; an empty key leaves the
/// data unchanged.
pub open spec fn spec_xor_cycle(data: Seq<u8>, key: Seq<u8>) -> Seq<u8> {
    if key.len() == 0 {
        data
    } else {
        Seq::new(data.len(), |i: int| data[i] ^ key[i % key.len() as int])
    }
}

/// XOR is its own inverse, pointwise.
pub proof fn lemma_xor_bytes_involution(a: Seq<u8>, b: Seq<u8>)
    requires
        a.len() == b.len(),
    ensures
        spec_xor_bytes(spec_xor_bytes(a, b), b) == a,
{
    let once = spec_xor_bytes(a, b);
    let twice = spec_xor_bytes(once, b);
    assert forall|i: int| 0 <= i < a.len() implies twice[i] == a[i] by {
        let x = a[i];
        let y = b[i];
        assert((x ^ y) ^ y == x) by (bit_vector);
    }
    assert(twice =~= a);
}

/// Cycled XOR is its own inverse.
pub proof fn lemma_xor_cycle_involution(data: Seq<u8>, key: Seq<u8>)
    ensures
        spec_xor_cycle(spec_xor_cycle(data, key), key) == data,
{
    if key.len() == 0 {
    } else {
        let once = spec_xor_cycle(data, key);
        let twice = spec_xor_cycle(once, key);
        assert forall|i: int| 0 <= i < data.len() implies twice[i] == data[i] by {
            let x = data[i];
            let y = key[i % key.len() as int];
            assert((x ^ y) ^ y == x) by (bit_vector);
        }
        assert(twice =~= data);
    }
}

/// Applying a cycled XOR keeps the length.
pub proof fn lemma_xor_cycle_len(data: Seq<u8>, key: Seq<u8>)
    ensures
        spec_xor_cycle(data, key).len() == data.len(),
{
}

/// XOR two equal-length byte vectors, element by element.
pub fn xor_bytes(a: &[u8], b: &[u8]) -> (r: Vec<u8>)
    requires
        a@.len() == b@.len(),
    ensures
        r@ == spec_xor_bytes(a@, b@),
{
    let mut out: Vec<u8> = Vec::new();
    let mut i: usize = 0;
    while i < a.len()
        invariant
            i <= a@.len(),
            a@.len() == b@.len(),
            out@ == spec_xor_bytes(a@, b@).take(i as int),
        decreases a@.len() - i,
    {
        out.push(a[i] ^ b[i]);
        proof {
            assert(out@ =~= spec_xor_bytes(a@, b@).take(i + 1));
        }
        i = i + 1;
    }
    proof {
        assert(spec_xor_bytes(a@, b@).take(a@.len() as int) =~= spec_xor_bytes(a@, b@));
    }
    out
}

/// XOR a byte vector with a key cycled over it.
pub fn xor_cycle(data: &[u8], key: &[u8]) -> (r: Vec<u8>)
    ensures
        r@ == spec_xor_cycle(data@, key@),
{
    if key.len() == 0 {
        let mut out: Vec<u8> = Vec::new();
        let mut i: usize = 0;
        while i < data.len()
            invariant
                i <= data@.len(),
                out@ == data@.take(i as int),
            decreases data@.len() - i,
        {
            out.push(data[i]);
            proof {
                assert(out@ =~= data@.take(i + 1));
            }
            i = i + 1;
        }
        proof {
            assert(data@.take(data@.len() as int) =~= data@);
        }
        out
    } else {
        let mut out: Vec<u8> = Vec::new();
        let mut i: usize = 0;
        while i < data.len()
            invariant
                i <= data@.len(),
                key@.len() > 0,
                out@ == spec_xor_cycle(data@, key@).take(i as int),
            decreases data@.len() - i,
        {
            out.push(data[i] ^ key[i % key.len()]);
            proof {
                assert(out@ =~= spec_xor_cycle(data@, key@).take(i + 1));
            }
            i = i + 1;
        }
        proof {
            assert(spec_xor_cycle(data@, key@).take(data@.len() as int) =~= spec_xor_cycle(
                data@,
                key@,
            ));
        }
        out
    }
}

/// XOR a fresh ChaCha20 pad drawn from `seed` into `data`. Running it twice
/// with the same seed restores the data.
pub fn xor_with_seeded_pad(data: &[u8], seed: u64) -> (r: Vec<u8>)
    ensures
        r@ == spec_xor_bytes(data@, chacha_stream(seed, data@.len())),
        r@.len() == data@.len(),
        chacha_stream(seed, data@.len()).len() == data@.len(),
{
    let pad = chacha_pad(seed, data.len());
    xor_bytes(data, pad.as_slice())
}

} // verus!
