//! The individual encryption layers: the fractal layer and the two
//! symmetric ciphers, AES-256-GCM and ChaCha20. A symmetric layer's
//! output embeds the key and nonce it was given, ahead of the
//! ciphertext.
use crate::crypto::spec_xor_bytes;
use crate::fractal::{node_plain, FractalNode};
use crate::FskcError;
use aes_gcm::aead::{Aead, KeyInit};
use chacha20::cipher::{KeyIvInit, StreamCipher};
use std::sync::Arc;
use vstd::prelude::*;
use vstd::slice::slice_subrange;

verus! {

/// The AES-256-GCM ciphertext (with its tag) for a key, nonce and
/// plaintext: a function of those three alone.
pub uninterp spec fn aes_gcm_ct(key: Seq<u8>, nonce: Seq<u8>, pt: Seq<u8>) -> Seq<u8>;

/// What AES-256-GCM decryption yields for a key, nonce and ciphertext:
/// the plaintext when the ciphertext is authentic, nothing otherwise; a
/// function of those three alone.
pub uninterp spec fn aes_gcm_pt(key: Seq<u8>, nonce: Seq<u8>, ct: Seq<u8>) -> Option<Seq<u8>>;

/// Relies on aes_gcm's Aes256Gcm: authenticated encryption whose output
/// depends on the key, nonce and plaintext alone.
#[verifier::external_body]
fn aes_encrypt(key: &[u8], nonce: &[u8], data: &[u8]) -> (r: Result<Vec<u8>, FskcError>)
    requires
        key@.len() == 32,
        nonce@.len() == 12,
    ensures
        r matches Ok(v) ==> v@ == aes_gcm_ct(key@, nonce@, data@),
        r matches Ok(v) ==> aes_gcm_pt(key@, nonce@, v@) == Some(data@),
{
    let cipher = aes_gcm::Aes256Gcm::new_from_slice(key)
        .map_err(|_| FskcError::EncryptionError("bad key length".to_owned()))?;
    let nonce = aes_gcm::Nonce::from_slice(nonce);
    cipher.encrypt(nonce, data).map_err(|_| FskcError::EncryptionError("encryption failed".to_owned()))
}

/// Relies on aes_gcm's Aes256Gcm: decryption is a function of the key,
/// nonce and ciphertext alone, succeeding exactly on authentic
/// ciphertexts.
#[verifier::external_body]
fn aes_decrypt(key: &[u8], nonce: &[u8], data: &[u8]) -> (r: Result<Vec<u8>, FskcError>)
    requires
        key@.len() == 32,
        nonce@.len() == 12,
    ensures
        r matches Ok(v) ==> Some(v@) == aes_gcm_pt(key@, nonce@, data@),
        r is Err ==> aes_gcm_pt(key@, nonce@, data@) is None,
{
    let cipher = aes_gcm::Aes256Gcm::new_from_slice(key)
        .map_err(|_| FskcError::EncryptionError("bad key length".to_owned()))?;
    let nonce = aes_gcm::Nonce::from_slice(nonce);
    cipher.decrypt(nonce, data).map_err(|_| FskcError::DecryptionError("decryption failed".to_owned()))
}

/// The ChaCha20 keystream for a key and nonce: a function of the key,
/// nonce and length alone.
pub uninterp spec fn chacha20_keystream(key: Seq<u8>, nonce: Seq<u8>, len: nat) -> Seq<u8>;

/// Relies on chacha20's ChaCha20 stream cipher: it XORs a keystream
/// drawn from the key and nonce alone over the data, so a second
/// application restores it. The length bound keeps the data inside the
/// cipher's 256 GiB keystream, past which `apply_keystream` aborts.
#[verifier::external_body]
fn chacha_apply(key: &[u8], nonce: &[u8], data: &[u8]) -> (r: Vec<u8>)
    requires
        key@.len() == 32,
        nonce@.len() == 12,
        data@.len() < 0x40_0000_0000,
    ensures
        r@ == spec_xor_bytes(data@, chacha20_keystream(key@, nonce@, data@.len())),
        r@.len() == data@.len(),
        r@.len() == chacha20_keystream(key@, nonce@, data@.len()).len(),
{
    let mut cipher = chacha20::ChaCha20::new(
        chacha20::Key::from_slice(key),
        chacha20::Nonce::from_slice(nonce),
    );
    let mut buf = data.to_vec();
    cipher.apply_keystream(&mut buf);
    buf
}

/// A fractal-based encryption layer.
#[derive(Debug, Clone, Copy, PartialEq, Eq, Structural)]
pub struct FractalLayer {}

impl FractalLayer {
    /// Create a fractal layer.
    pub fn new() -> (r: Self)
        ensures
            r == (FractalLayer {  }),
    {
        FractalLayer {  }
    }

    /// Build the fractal structure for the data.
    pub fn generate(&self, data: Vec<u8>, seed: u64, depth: usize, chunk_size: usize) -> (r: Result<
        Arc<FractalNode>,
        FskcError,
    >)
        ensures
            r is Ok <==> (depth >= 1 && data@.len() >= 1 && chunk_size >= 1),
            r matches Ok(node) ==> node_plain(*node) == data@,
    {
        FractalNode::generate(data, seed, depth, chunk_size)
    }
}

/// The available symmetric encryption algorithms.
#[derive(Debug, Clone, Copy, PartialEq, Eq, Structural)]
pub enum SymmetricLayer {
    Aes,
    ChaCha,
}

/// What a symmetric layer produces: the key, then the nonce, then the
/// ciphertext of the chosen algorithm.
pub open spec fn spec_sym_encrypt(alg: SymmetricLayer, key: Seq<u8>, nonce: Seq<u8>, pt: Seq<u8>) -> Seq<u8> {
    key + nonce + (match alg {
        SymmetricLayer::Aes => aes_gcm_ct(key, nonce, pt),
        SymmetricLayer::ChaCha => spec_xor_bytes(pt, chacha20_keystream(key, nonce, pt.len())),
    })
}

/// What a symmetric layer's decryption yields: the embedded key and
/// nonce split off, then the cipher inverted.
pub open spec fn spec_sym_decrypt(alg: SymmetricLayer, blob: Seq<u8>) -> Option<Seq<u8>> {
    if blob.len() < 44 {
        None
    } else {
        let key = blob.take(32);
        let nonce = blob.subrange(32, 44);
        let ct = blob.skip(44);
        match alg {
            SymmetricLayer::Aes => aes_gcm_pt(key, nonce, ct),
            SymmetricLayer::ChaCha => Some(
                spec_xor_bytes(ct, chacha20_keystream(key, nonce, ct.len())),
            ),
        }
    }
}

impl SymmetricLayer {
    /// Encrypt the data under the given key and nonce: the output is
    /// the key, the nonce, then the ciphertext, and decrypting that
    /// output restores the data.
    pub fn encrypt(&self, key: &[u8], nonce: &[u8], data: &[u8]) -> (r: Result<Vec<u8>, FskcError>)
        requires
            key@.len() == 32,
            nonce@.len() == 12,
        ensures
            r matches Ok(v) ==> v@ == spec_sym_encrypt(*self, key@, nonce@, data@),
            r matches Ok(v) ==> spec_sym_decrypt(*self, v@) == Some(data@),
            *self is ChaCha && data@.len() < 0x40_0000_0000 ==> r is Ok,
    {
        let ct = match self {
            SymmetricLayer::Aes => {
                match aes_encrypt(key, nonce, data) {
                    Ok(c) => c,
                    Err(e) => {
                        return Err(e);
                    },
                }
            },
            SymmetricLayer::ChaCha => {
                if (data.len() as u64) >= 0x40_0000_0000u64 {
                    return Err(FskcError::EncryptionError("data too long".to_owned()));
                }
                chacha_apply(key, nonce, data)
            },
        };
        let ghost ct_view = ct@;
        let mut out = crate::microcontroller::memory::copy_slice(key);
        let mut nonce_part = crate::microcontroller::memory::copy_slice(nonce);
        out.append(&mut nonce_part);
        let mut ct_part = ct;
        out.append(&mut ct_part);
        proof {
            assert(out@.take(32) =~= key@);
            assert(out@.subrange(32, 44) =~= nonce@);
            assert(out@.skip(44) =~= ct_view);
            match self {
                SymmetricLayer::Aes => {},
                SymmetricLayer::ChaCha => {
                    crate::crypto::lemma_xor_bytes_involution(
                        data@,
                        chacha20_keystream(key@, nonce@, data@.len()),
                    );
                    assert(spec_xor_bytes(ct_view, chacha20_keystream(key@, nonce@, ct_view.len()))
                        =~= data@);
                },
            }
        }
        Ok(out)
    }

    /// Decrypt a layer output: split off the embedded key and nonce,
    /// then invert the cipher. An authentic input — one the same
    /// algorithm produced — yields exactly the plaintext it was made
    /// from; an input shorter than the embedded header fails.
    pub fn decrypt(&self, data: &[u8]) -> (r: Result<Vec<u8>, FskcError>)
        ensures
            data@.len() < 44 ==> (r is Err),
            r matches Ok(v) ==> Some(v@) == spec_sym_decrypt(*self, data@),
            r is Err && data@.len() < 0x40_0000_0000 ==> spec_sym_decrypt(*self, data@) is None,
            *self is ChaCha && 44 <= data@.len() < 0x40_0000_0000 ==> (r is Ok),
    {
        if data.len() < 44 {
            return Err(FskcError::EncryptionError("invalid data length".to_owned()));
        }
        let key = slice_subrange(data, 0, 32);
        let nonce = slice_subrange(data, 32, 44);
        let ciphertext = slice_subrange(data, 44, data.len());
        proof {
            assert(key@ =~= data@.take(32));
            assert(nonce@ =~= data@.subrange(32, 44));
            assert(ciphertext@ =~= data@.skip(44));
        }
        match self {
            SymmetricLayer::Aes => aes_decrypt(key, nonce, ciphertext),
            SymmetricLayer::ChaCha => {
                if (ciphertext.len() as u64) >= 0x40_0000_0000u64 {
                    return Err(FskcError::DecryptionError("data too long".to_owned()));
                }
                let plain = chacha_apply(key, nonce, ciphertext);
                Ok(plain)
            },
        }
    }
}

/// One encryption layer of the sequence.
#[derive(Debug, Clone, Copy, PartialEq, Eq, Structural)]
pub enum Layer {
    Fractal(FractalLayer),
    Symmetric(SymmetricLayer),
}

} // verus!
