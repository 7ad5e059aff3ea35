//! A simplified key package: plain cyclic XOR, which is its own inverse
//! and commutes with XOR of ciphertexts.
use crate::crypto::{spec_xor_cycle, xor_cycle};
use crate::FskcError;
use vstd::prelude::*;

verus! {

/// A simplified key package for homomorphic operations.
pub struct HomomorphicKeyPackage {
    key: Vec<u8>,
}

impl HomomorphicKeyPackage {
    /// The key the package holds.
    pub closed spec fn spec_key(&self) -> Seq<u8> {
        self.key@
    }

    /// Create a new package around a key.
    pub fn new(key: Vec<u8>) -> (r: Self)
        ensures
            r.spec_key() == key@,
    {
        HomomorphicKeyPackage { key }
    }

    /// XOR the key cyclically over the data.
    pub fn encrypt(&self, data: &mut Vec<u8>) -> (r: Result<(), FskcError>)
        ensures
            r is Ok,
            final(data)@ == spec_xor_cycle(old(data)@, self.spec_key()),
    {
        let out = xor_cycle(data.as_slice(), self.key.as_slice());
        *data = out;
        Ok(())
    }

    /// Undo `encrypt`: XOR is its own inverse, so this applies the same
    /// cyclic XOR and restores what `encrypt` was given.
    pub fn decrypt(&self, data: &mut Vec<u8>) -> (r: Result<(), FskcError>)
        ensures
            r is Ok,
            final(data)@ == spec_xor_cycle(old(data)@, self.spec_key()),
            old(data)@ == spec_xor_cycle(final(data)@, self.spec_key()),
    {
        proof {
            crate::crypto::lemma_xor_cycle_involution(old(data)@, self.spec_key());
        }
        self.encrypt(data)
    }
}

} // verus!
