//! Deterministic key derivation from a shared context.
use super::context::{ContextModel, SharedContext};
use super::{copy_u8_vec, WindowModel};
use crate::clock::now_millis;
use crate::crypto::{sha256_digest, sha256_of};
use crate::FskcError;
use vstd::prelude::*;

verus! {

/// The mathematical content of a derived key.
pub struct KeyModel {
    pub key: Seq<u8>,
    pub generated_at: u64,
    pub quality: u64,
    pub verification_hash: Seq<u8>,
}

/// Key material derived from a shared context.
#[derive(Debug)]
pub struct DerivedKey {
    /// Raw key bytes.
    pub key: Vec<u8>,
    /// When the key was generated, in milliseconds since the epoch.
    pub generated_at: u64,
    /// Key quality score, in thousandths of 1.0.
    pub quality: u64,
    /// Verification hash of the key bytes.
    pub verification_hash: Vec<u8>,
}

impl View for DerivedKey {
    type V = KeyModel;

    open spec fn view(&self) -> KeyModel {
        KeyModel {
            key: self.key@,
            generated_at: self.generated_at,
            quality: self.quality,
            verification_hash: self.verification_hash@,
        }
    }
}

impl Clone for DerivedKey {
    fn clone(&self) -> (r: Self)
        ensures
            r@ == self@,
    {
        DerivedKey {
            key: copy_u8_vec(&self.key),
            generated_at: self.generated_at,
            quality: self.quality,
            verification_hash: copy_u8_vec(&self.verification_hash),
        }
    }
}

/// Configuration for key generation.
#[derive(Debug, Clone, Copy, PartialEq, Eq, Structural)]
pub struct KeyGenConfig {
    /// Desired key length in bytes.
    pub key_length: usize,
    /// Minimum required context quality, in thousandths.
    pub min_quality: u64,
    /// Number of hash iterations for the derivation function.
    pub hash_iterations: usize,
}

impl Default for KeyGenConfig {
    /// 256-bit keys, quality at least 0.8, ten thousand hash rounds.
    fn default() -> (r: Self)
        ensures
            r == (KeyGenConfig { key_length: 32, min_quality: 800, hash_iterations: 10000 }),
    {
        KeyGenConfig { key_length: 32, min_quality: 800, hash_iterations: 10000 }
    }
}

/// A measurement scaled from thousandths of [0, 1] to a byte, truncating
/// and saturating at 255.
pub open spec fn scale_to_byte(m: u32) -> u8 {
    let v = (m as int) * 255 / 1000;
    if v > 255 {
        255u8
    } else {
        v as u8
    }
}

/// A quality metric reduced to a byte: its integer part, saturating at
/// 255.
pub open spec fn metric_byte(q: u32) -> u8 {
    let v = (q as int) / 1000;
    if v > 255 {
        255u8
    } else {
        v as u8
    }
}

/// The whitened entropy bytes of one window: each measurement byte XORed
/// with the window's entropy, signal-to-noise and consistency bytes.
pub open spec fn spec_whitened(w: WindowModel) -> Seq<u8> {
    Seq::new(
        w.measurements.len(),
        |i: int| scale_to_byte(w.measurements[i]) ^ metric_byte(w.quality.shannon_entropy)
            ^ metric_byte(w.quality.signal_to_noise) ^ metric_byte(w.quality.temporal_consistency),
    )
}

/// The whitened entropy of all windows, concatenated in order.
pub open spec fn spec_context_entropy(ms: Seq<WindowModel>) -> Seq<u8>
    decreases ms.len(),
{
    if ms.len() == 0 {
        Seq::empty()
    } else {
        spec_context_entropy(ms.drop_last()) + spec_whitened(ms.last())
    }
}

/// `n` rounds of SHA-256 over the entropy, each round rehashing the
/// previous digest.
pub open spec fn spec_iterated_hash(e: Seq<u8>, n: nat) -> Seq<u8>
    decreases n,
{
    if n == 0 {
        e
    } else {
        sha256_of(spec_iterated_hash(e, (n - 1) as nat))
    }
}

/// The bytes fitted to exactly `len`: truncated, or zero-padded at the
/// end.
pub open spec fn spec_fit(k: Seq<u8>, len: nat) -> Seq<u8> {
    if k.len() >= len {
        k.take(len as int)
    } else {
        k + Seq::new((len - k.len()) as nat, |i: int| 0u8)
    }
}

/// The key that a configuration derives from a context: iterated hashing
/// of the whitened entropy, fitted to the configured length. A function
/// of the context's measurement content alone.
pub open spec fn spec_derived_key(cfg: KeyGenConfig, ctx: ContextModel) -> Seq<u8> {
    spec_fit(
        spec_iterated_hash(spec_context_entropy(ctx.measurements), cfg.hash_iterations as nat),
        cfg.key_length as nat,
    )
}

/// Key generation is a pure function of the context's measurement
/// content: contexts holding the same measurements yield the same key
/// bytes, whatever their other fields or the time of the call.
pub proof fn lemma_generate_key_deterministic(cfg: KeyGenConfig, a: ContextModel, b: ContextModel)
    requires
        a.measurements == b.measurements,
    ensures
        spec_derived_key(cfg, a) == spec_derived_key(cfg, b),
{
}

/// A freshly generated key always passes verification: the verification
/// hash it carries is the digest of its key bytes, which is exactly what
/// `verify_key` recomputes and compares.
pub proof fn lemma_generated_key_verifies(k: KeyModel)
    requires
        k.verification_hash == sha256_of(k.key),
    ensures
        sha256_of(k.key) == k.verification_hash,
{
}

/// Compare two byte slices for equality.
pub fn bytes_equal(a: &[u8], b: &[u8]) -> (r: bool)
    ensures
        r == (a@ == b@),
{
    if a.len() != b.len() {
        return false;
    }
    let mut i: usize = 0;
    while i < a.len()
        invariant
            a@.len() == b@.len(),
            i <= a@.len(),
            forall|j: int| 0 <= j < i ==> a@[j] == b@[j],
        decreases a@.len() - i,
    {
        if a[i] != b[i] {
            return false;
        }
        i = i + 1;
    }
    proof {
        assert(a@ =~= b@);
    }
    true
}

/// Derives keys from shared contexts.
pub struct KeyGenerator {
    config: KeyGenConfig,
}

impl KeyGenerator {
    /// The configuration the generator was built with.
    pub closed spec fn spec_config(&self) -> KeyGenConfig {
        self.config
    }

    /// Create a new key generator with the given configuration.
    pub fn new(config: KeyGenConfig) -> (r: Self)
        ensures
            r.spec_config() == config,
    {
        KeyGenerator { config }
    }

    /// Derive a key from the context. Fails exactly when the context's
    /// quality is below the configured minimum; otherwise the key bytes
    /// are the iterated hash of the context's whitened entropy, fitted to
    /// the configured length, and the verification hash is the hash of
    /// the key.
    pub fn generate_key(&self, context: &SharedContext) -> (r: Result<DerivedKey, FskcError>)
        ensures
            r is Ok <==> context@.quality >= self.spec_config().min_quality,
            r matches Ok(k) ==> {
                &&& k@.key == spec_derived_key(self.spec_config(), context@)
                &&& k@.key.len() == self.spec_config().key_length
                &&& k@.quality == context@.quality
                &&& k@.verification_hash == sha256_of(k@.key)
            },
    {
        if context.quality < self.config.min_quality {
            return Err(
                FskcError::Custom("insufficient context quality for key generation".to_owned()),
            );
        }
        let ghost views = context@.measurements;
        let mut entropy: Vec<u8> = Vec::new();
        let mut wi: usize = 0;
        while wi < context.measurements.len()
            invariant
                wi <= context.measurements@.len(),
                views == context@.measurements,
                entropy@ == spec_context_entropy(views.take(wi as int)),
            decreases context.measurements@.len() - wi,
        {
            let w = &context.measurements[wi];
            let eb = Self::metric_to_byte(w.quality.shannon_entropy);
            let sb = Self::metric_to_byte(w.quality.signal_to_noise);
            let cb = Self::metric_to_byte(w.quality.temporal_consistency);
            let mut mi: usize = 0;
            while mi < w.measurements.len()
                invariant
                    mi <= w.measurements@.len(),
                    w@ == views[wi as int],
                    0 <= wi < views.len(),
                    eb == metric_byte(w@.quality.shannon_entropy),
                    sb == metric_byte(w@.quality.signal_to_noise),
                    cb == metric_byte(w@.quality.temporal_consistency),
                    entropy@ == spec_context_entropy(views.take(wi as int)) + spec_whitened(
                        w@,
                    ).take(mi as int),
                decreases w.measurements@.len() - mi,
            {
                let m = w.measurements[mi];
                let v: u64 = (m as u64) * 255 / 1000;
                let sbyte: u8 = if v > 255 {
                    255
                } else {
                    v as u8
                };
                proof {
                    assert(sbyte == scale_to_byte(w@.measurements[mi as int]));
                }
                entropy.push(sbyte ^ eb ^ sb ^ cb);
                proof {
                    assert(entropy@ =~= spec_context_entropy(views.take(wi as int))
                        + spec_whitened(w@).take(mi + 1));
                }
                mi = mi + 1;
            }
            proof {
                assert(spec_whitened(w@).take(w.measurements@.len() as int) =~= spec_whitened(w@));
                assert(views.take(wi + 1).drop_last() =~= views.take(wi as int));
                assert(views.take(wi + 1).last() == views[wi as int]);
            }
            wi = wi + 1;
        }
        proof {
            assert(views.take(views.len() as int) =~= views);
        }
        let key = self.derive_key(entropy);
        let mut hash_input = key;
        let verification_hash = sha256_digest(hash_input.as_slice());
        Ok(
            DerivedKey {
                key: hash_input,
                generated_at: now_millis(),
                quality: context.quality,
                verification_hash,
            },
        )
    }

    /// Reduce a quality metric to its byte form.
    fn metric_to_byte(q: u32) -> (r: u8)
        ensures
            r == metric_byte(q),
    {
        let v = q / 1000;
        if v > 255 {
            255
        } else {
            v as u8
        }
    }

    /// Apply the key derivation function: iterated hashing, then fitting
    /// to the configured length.
    fn derive_key(&self, entropy: Vec<u8>) -> (r: Vec<u8>)
        ensures
            r@ == spec_fit(
                spec_iterated_hash(entropy@, self.spec_config().hash_iterations as nat),
                self.spec_config().key_length as nat,
            ),
    {
        let ghost e0 = entropy@;
        let mut key = entropy;
        let mut it: usize = 0;
        while it < self.config.hash_iterations
            invariant
                it <= self.spec_config().hash_iterations,
                key@ == spec_iterated_hash(e0, it as nat),
            decreases self.spec_config().hash_iterations - it,
        {
            key = sha256_digest(key.as_slice());
            it = it + 1;
        }
        let target = self.config.key_length;
        if key.len() >= target {
            key.truncate(target);
            proof {
                assert(key@ =~= spec_fit(spec_iterated_hash(e0, it as nat), target as nat));
            }
            key
        } else {
            while key.len() < target
                invariant
                    key@.len() <= target,
                    spec_iterated_hash(e0, it as nat).len() <= key@.len(),
                    key@ == spec_fit(spec_iterated_hash(e0, it as nat), key@.len()),
                decreases target - key@.len(),
            {
                key.push(0);
                proof {
                    assert(key@ =~= spec_fit(spec_iterated_hash(e0, it as nat), key@.len()));
                }
            }
            proof {
                assert(key@ =~= spec_fit(spec_iterated_hash(e0, it as nat), target as nat));
            }
            key
        }
    }

    /// Whether the key's bytes hash to the given verification hash; pure,
    /// with no side effect.
    pub fn verify_key(&self, key: &DerivedKey, verification_hash: &[u8]) -> (r: bool)
        ensures
            r == (sha256_of(key@.key) == verification_hash@),
    {
        let hash = sha256_digest(key.key.as_slice());
        bytes_equal(hash.as_slice(), verification_hash)
    }
}

} // verus!
