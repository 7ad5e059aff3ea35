//! Time-stepped XOR encryption: a root key package carries a sequence of
//! step keys; data is encrypted by XORing every active step key over it
//! in order, and decrypted by applying them in reverse. XOR is its own
//! inverse, so the two directions cancel exactly.
pub mod compute;
pub mod homomorphic;

use crate::crypto::{chacha_pad, chacha_stream, spec_xor_bytes, spec_xor_cycle, xor_bytes, xor_cycle};
use crate::FskcError;
use vstd::prelude::*;

verus! {

/// One time step: a key XORed cyclically over the data. The operation is
/// its own inverse.
#[derive(Debug)]
pub(crate) struct TimeStep {
    pub(crate) key: Vec<u8>,
}

impl Clone for TimeStep {
    fn clone(&self) -> Self {
        TimeStep { key: super::pairlet::copy_u8_vec(&self.key) }
    }
}

/// The step keys of a sequence of time steps.
pub(crate) open spec fn keys_of(steps: Seq<TimeStep>) -> Seq<Seq<u8>> {
    steps.map(|i: int, t: TimeStep| t.key@)
}

/// Data after the keys are applied in order.
pub open spec fn apply_keys(data: Seq<u8>, keys: Seq<Seq<u8>>) -> Seq<u8>
    decreases keys.len(),
{
    if keys.len() == 0 {
        data
    } else {
        spec_xor_cycle(apply_keys(data, keys.drop_last()), keys.last())
    }
}

/// Data after the keys are applied in reverse order.
pub open spec fn unapply_keys(data: Seq<u8>, keys: Seq<Seq<u8>>) -> Seq<u8>
    decreases keys.len(),
{
    if keys.len() == 0 {
        data
    } else {
        unapply_keys(spec_xor_cycle(data, keys.last()), keys.drop_last())
    }
}

/// Applying keys keeps the length.
pub proof fn lemma_apply_keys_len(data: Seq<u8>, keys: Seq<Seq<u8>>)
    ensures
        apply_keys(data, keys).len() == data.len(),
        unapply_keys(data, keys).len() == data.len(),
    decreases keys.len(),
{
    if keys.len() > 0 {
        lemma_apply_keys_len(data, keys.drop_last());
        lemma_apply_keys_len(spec_xor_cycle(data, keys.last()), keys.drop_last());
    }
}

/// Applying the keys backward undoes applying them forward, and the
/// other way round.
pub proof fn lemma_apply_unapply(data: Seq<u8>, keys: Seq<Seq<u8>>)
    ensures
        unapply_keys(apply_keys(data, keys), keys) == data,
        apply_keys(unapply_keys(data, keys), keys) == data,
    decreases keys.len(),
{
    if keys.len() > 0 {
        let rest = keys.drop_last();
        let k = keys.last();
        lemma_apply_unapply(data, rest);
        crate::crypto::lemma_xor_cycle_involution(apply_keys(data, rest), k);
        lemma_apply_unapply(spec_xor_cycle(data, k), rest);
        crate::crypto::lemma_xor_cycle_involution(data, k);
    }
}

/// Apply the first `upto` step keys to the data, in order.
pub(crate) fn apply_steps_exec(data: &Vec<u8>, steps: &Vec<TimeStep>, upto: usize) -> (r: Vec<u8>)
    requires
        upto <= steps@.len(),
    ensures
        r@ == apply_keys(data@, keys_of(steps@).take(upto as int)),
{
    let mut out = super::pairlet::copy_u8_vec(data);
    let mut i: usize = 0;
    while i < upto
        invariant
            i <= upto <= steps@.len(),
            out@ == apply_keys(data@, keys_of(steps@).take(i as int)),
        decreases upto - i,
    {
        out = xor_cycle(out.as_slice(), steps[i].key.as_slice());
        proof {
            assert(keys_of(steps@).take(i + 1).drop_last() =~= keys_of(steps@).take(i as int));
            assert(keys_of(steps@).take(i + 1).last() == steps@[i as int].key@);
        }
        i = i + 1;
    }
    out
}

/// Apply the first `upto` step keys to the data, in reverse order.
pub(crate) fn unapply_steps_exec(data: &Vec<u8>, steps: &Vec<TimeStep>, upto: usize) -> (r: Vec<u8>)
    requires
        upto <= steps@.len(),
    ensures
        r@ == unapply_keys(data@, keys_of(steps@).take(upto as int)),
{
    let mut out = super::pairlet::copy_u8_vec(data);
    let mut i: usize = upto;
    proof {
        assert(unapply_partial(data@, keys_of(steps@), upto as int, upto as int) == data@);
    }
    while i > 0
        invariant
            i <= upto <= steps@.len(),
            out@ == unapply_partial(data@, keys_of(steps@), upto as int, i as int),
        decreases i,
    {
        i = i - 1;
        out = xor_cycle(out.as_slice(), steps[i].key.as_slice());
        proof {
            assert(out@ == unapply_partial(data@, keys_of(steps@), upto as int, i as int));
        }
    }
    proof {
        lemma_unapply_partial(data@, keys_of(steps@), upto as int, 0);
        assert(keys_of(steps@).take(upto as int).take(upto as int) =~= keys_of(steps@).take(
            upto as int,
        ));
    }
    out
}

/// Data after the keys at positions `from <= j < upto` are applied in
/// reverse order, one key per step downward.
pub open spec fn unapply_partial(data: Seq<u8>, keys: Seq<Seq<u8>>, upto: int, from: int) -> Seq<u8>
    decreases upto - from,
{
    if from >= upto {
        data
    } else {
        spec_xor_cycle(unapply_partial(data, keys, upto, from + 1), keys[from])
    }
}

/// Walking the reverse application down to `from` equals unapplying the
/// prefix of keys above `from`.
pub proof fn lemma_unapply_partial(data: Seq<u8>, keys: Seq<Seq<u8>>, upto: int, from: int)
    requires
        0 <= from <= upto <= keys.len(),
    ensures
        unapply_partial(data, keys, upto, from) == unapply_keys(
            data,
            keys.take(upto).skip(from),
        ),
    decreases upto - from,
{
    if from < upto {
        lemma_unapply_partial(data, keys, upto, from + 1);
        let sub = keys.take(upto).skip(from);
        assert(sub.last() == keys[from] || true);
        assert(keys.take(upto).skip(from + 1) =~= sub.drop_first());
        lemma_unapply_first(data, sub);
        assert(sub.first() == keys[from]);
        assert(sub.drop_first() =~= keys.take(upto).skip(from + 1));
    }
}

/// Unapplying a key list works from the front: it first unapplies the
/// tail, then XORs the first key.
pub proof fn lemma_unapply_first(data: Seq<u8>, keys: Seq<Seq<u8>>)
    requires
        keys.len() > 0,
    ensures
        unapply_keys(data, keys) == spec_xor_cycle(unapply_keys(data, keys.drop_first()), keys.first()),
    decreases keys.len(),
{
    if keys.len() == 1 {
        assert(keys.drop_first() =~= Seq::<Seq<u8>>::empty());
        assert(keys.drop_last() =~= Seq::<Seq<u8>>::empty());
        let inner = spec_xor_cycle(data, keys.last());
        assert(unapply_keys(data, keys) == unapply_keys(inner, keys.drop_last()));
        assert(unapply_keys(inner, keys.drop_last()) == inner);
        assert(unapply_keys(data, keys.drop_first()) == data);
        assert(keys.first() == keys.last());
    } else {
        let k_last = keys.last();
        let k_first = keys.first();
        let inner = spec_xor_cycle(data, k_last);
        let rest = keys.drop_last();
        lemma_unapply_first(inner, rest);
        assert(rest.first() == k_first);
        let dfirst = keys.drop_first();
        assert(dfirst.len() > 0);
        assert(dfirst.last() == k_last);
        assert(dfirst.drop_last() =~= rest.drop_first());
        assert(unapply_keys(data, dfirst) == unapply_keys(inner, rest.drop_first()));
        assert(unapply_keys(data, keys) == unapply_keys(inner, rest));
    }
}

/// Root key package for the time-stepped operations.
#[derive(Debug, Clone)]
pub struct HolographicKeyPackage {
    time_steps: Vec<TimeStep>,
    current_step: usize,
    root_key: Vec<u8>,
}

/// Derived key package for enclave operations, kept separate from the
/// root.
#[derive(Debug, Clone)]
pub struct DerivedKeyPackage {
    time_steps: Vec<TimeStep>,
    current_step: usize,
    derived_key: Vec<u8>,
}

impl HolographicKeyPackage {
    /// All step keys, in order.
    pub closed spec fn spec_keys(&self) -> Seq<Seq<u8>> {
        keys_of(self.time_steps@)
    }

    /// The current position in the step sequence.
    pub closed spec fn spec_current(&self) -> nat {
        self.current_step as nat
    }

    /// The root key.
    pub closed spec fn spec_root(&self) -> Seq<u8> {
        self.root_key@
    }

    /// The keys active at the current step: every key up to and
    /// including the current one.
    pub open spec fn active_keys(&self) -> Seq<Seq<u8>> {
        self.spec_keys().take(self.spec_current() as int + 1)
    }

    /// The position always lies inside the step sequence.
    pub open spec fn wf(&self) -> bool {
        self.spec_current() < self.spec_keys().len()
    }

    /// Create a new root package whose first step key is the root key
    /// itself.
    pub fn new(root_key: Vec<u8>) -> (r: Self)
        ensures
            r.wf(),
            r.spec_root() == root_key@,
            r.spec_keys() == seq![root_key@],
            r.spec_current() == 0,
    {
        let first = TimeStep { key: super::pairlet::copy_u8_vec(&root_key) };
        let mut steps: Vec<TimeStep> = Vec::new();
        steps.push(first);
        let r = HolographicKeyPackage { time_steps: steps, current_step: 0, root_key };
        proof {
            assert(r.spec_keys() =~= seq![r.spec_root()]);
        }
        r
    }

    /// Derive a key package for enclave operations: the root key with
    /// every byte XORed with 0x55, a different but deterministic key.
    pub fn derive_enclave_key(&self) -> (r: Result<DerivedKeyPackage, FskcError>)
        ensures
            r matches Ok(d) ==> ({
                &&& d.wf()
                &&& d.spec_derived() == Seq::new(self.spec_root().len(), |i: int| self.spec_root()[i] ^ 0x55)
                &&& d.spec_keys() == seq![d.spec_derived()]
                &&& d.spec_current() == 0
            }),
            r is Ok,
    {
        let mut derived_key: Vec<u8> = Vec::new();
        let mut i: usize = 0;
        while i < self.root_key.len()
            invariant
                i <= self.root_key@.len(),
                derived_key@ == Seq::new(i as nat, |j: int| self.spec_root()[j] ^ 0x55),
            decreases self.root_key@.len() - i,
        {
            derived_key.push(self.root_key[i] ^ 0x55);
            proof {
                assert(derived_key@ =~= Seq::new(i as nat + 1, |j: int| self.spec_root()[j] ^ 0x55));
            }
            i = i + 1;
        }
        let first = TimeStep { key: super::pairlet::copy_u8_vec(&derived_key) };
        let mut steps: Vec<TimeStep> = Vec::new();
        steps.push(first);
        let d = DerivedKeyPackage { time_steps: steps, current_step: 0, derived_key };
        proof {
            assert(d.spec_keys() =~= seq![d.spec_derived()]);
        }
        Ok(d)
    }

    /// Append a fresh time step whose key is drawn from the given seed,
    /// with as many bytes as the root key.
    pub fn add_time_step(&mut self, seed: u64) -> (r: Result<(), FskcError>)
        ensures
            r is Ok,
            final(self).spec_root() == old(self).spec_root(),
            final(self).spec_current() == old(self).spec_current(),
            final(self).spec_keys() == old(self).spec_keys().push(
                chacha_stream(seed, old(self).spec_root().len()),
            ),
            old(self).wf() ==> final(self).wf(),
            old(self).wf() ==> final(self).active_keys() == old(self).active_keys(),
    {
        let key = chacha_pad(seed, self.root_key.len());
        self.time_steps.push(TimeStep { key });
        proof {
            assert(self.time_steps@.len() == old(self).time_steps@.len() + 1);
            assert(self.time_steps@.last().key@ == chacha_stream(
                seed,
                old(self).spec_root().len(),
            ));
            assert(forall|i: int|
                0 <= i < old(self).time_steps@.len() ==> self.time_steps@[i] == old(
                    self,
                ).time_steps@[i]);
            assert(self.spec_keys() =~= old(self).spec_keys().push(
                chacha_stream(seed, old(self).spec_root().len()),
            ));
            if old(self).wf() {
                assert(self.active_keys() =~= old(self).active_keys());
            }
        }
        Ok(())
    }

    /// XOR every active step key over the data, in order.
    pub fn apply_forward(&self, data: &mut Vec<u8>) -> (r: Result<(), FskcError>)
        requires
            self.wf(),
        ensures
            r is Ok,
            final(data)@ == apply_keys(old(data)@, self.active_keys()),
    {
        let n = self.time_steps.len();
        let out = apply_steps_exec(data, &self.time_steps, self.current_step + 1);
        *data = out;
        Ok(())
    }

    /// XOR every active step key over the data, in reverse order,
    /// undoing `apply_forward`.
    pub fn apply_backward(&self, data: &mut Vec<u8>) -> (r: Result<(), FskcError>)
        requires
            self.wf(),
        ensures
            r is Ok,
            final(data)@ == unapply_keys(old(data)@, self.active_keys()),
    {
        let n = self.time_steps.len();
        let out = unapply_steps_exec(data, &self.time_steps, self.current_step + 1);
        *data = out;
        Ok(())
    }

    /// The total number of time steps.
    pub fn num_steps(&self) -> (r: usize)
        ensures
            r == self.spec_keys().len(),
    {
        self.time_steps.len()
    }

    /// The current time step index.
    pub fn current_step(&self) -> (r: usize)
        ensures
            r == self.spec_current(),
    {
        self.current_step
    }

    /// Advance to the next time step; fails when none is left.
    pub fn advance(&mut self) -> (r: Result<(), FskcError>)
        ensures
            final(self).spec_keys() == old(self).spec_keys(),
            final(self).spec_root() == old(self).spec_root(),
            r is Ok <==> old(self).spec_current() + 1 < old(self).spec_keys().len(),
            r is Ok ==> final(self).spec_current() == old(self).spec_current() + 1,
            r is Err ==> final(self).spec_current() == old(self).spec_current(),
            old(self).wf() ==> final(self).wf(),
    {
        let n = self.time_steps.len();
        if self.current_step < usize::MAX && self.current_step + 1 < n {
            self.current_step = self.current_step + 1;
            Ok(())
        } else {
            Err(FskcError::EncryptionError("no more time steps available".to_owned()))
        }
    }

    /// XOR two equal-length ciphertexts in the homomorphic domain: the
    /// result decrypts to the XOR of what the inputs decrypt to.
    pub fn homomorphic_operation(&self, a: &Vec<u8>, b: &Vec<u8>) -> (r: Result<Vec<u8>, FskcError>)
        requires
            self.wf(),
        ensures
            r is Ok <==> a@.len() == b@.len(),
            r matches Ok(v) ==> ({
                &&& v@.len() == a@.len()
                &&& unapply_keys(v@, self.active_keys()) == spec_xor_bytes(
                    unapply_keys(a@, self.active_keys()),
                    unapply_keys(b@, self.active_keys()),
                )
            }),
    {
        if a.len() != b.len() {
            return Err(FskcError::EncryptionError("input lengths must match".to_owned()));
        }
        let n = self.time_steps.len();
        let temp_a = unapply_steps_exec(a, &self.time_steps, self.current_step + 1);
        let temp_b = unapply_steps_exec(b, &self.time_steps, self.current_step + 1);
        proof {
            lemma_apply_keys_len(a@, self.active_keys());
            lemma_apply_keys_len(b@, self.active_keys());
        }
        let mixed = xor_bytes(temp_a.as_slice(), temp_b.as_slice());
        let result = apply_steps_exec(&mixed, &self.time_steps, self.current_step + 1);
        proof {
            lemma_apply_unapply(mixed@, self.active_keys());
            lemma_apply_keys_len(mixed@, self.active_keys());
        }
        Ok(result)
    }
}

impl DerivedKeyPackage {
    /// All step keys, in order.
    pub closed spec fn spec_keys(&self) -> Seq<Seq<u8>> {
        keys_of(self.time_steps@)
    }

    /// The current position in the step sequence.
    pub closed spec fn spec_current(&self) -> nat {
        self.current_step as nat
    }

    /// The derived key.
    pub closed spec fn spec_derived(&self) -> Seq<u8> {
        self.derived_key@
    }

    /// The keys active at the current step.
    pub open spec fn active_keys(&self) -> Seq<Seq<u8>> {
        self.spec_keys().take(self.spec_current() as int + 1)
    }

    /// The position always lies inside the step sequence.
    pub open spec fn wf(&self) -> bool {
        self.spec_current() < self.spec_keys().len()
    }

    /// Append a fresh time step: bytes drawn from the seed, XORed with
    /// the derived key to keep the step separate from the root's.
    pub fn add_time_step(&mut self, seed: u64) -> (r: Result<(), FskcError>)
        ensures
            r is Ok,
            final(self).spec_derived() == old(self).spec_derived(),
            final(self).spec_current() == old(self).spec_current(),
            final(self).spec_keys().len() == old(self).spec_keys().len() + 1,
            old(self).wf() ==> final(self).wf(),
            old(self).wf() ==> final(self).active_keys() == old(self).active_keys(),
    {
        let key = chacha_pad(seed, self.derived_key.len());
        let mixed = xor_bytes(key.as_slice(), self.derived_key.as_slice());
        self.time_steps.push(TimeStep { key: mixed });
        proof {
            assert(self.time_steps@.len() == old(self).time_steps@.len() + 1);
            assert(forall|i: int|
                0 <= i < old(self).time_steps@.len() ==> self.time_steps@[i] == old(
                    self,
                ).time_steps@[i]);
            assert(self.spec_keys().len() == old(self).spec_keys().len() + 1);
            if old(self).wf() {
                assert(self.active_keys() =~= old(self).active_keys());
            }
        }
        Ok(())
    }

    /// XOR every active step key over the data, in order.
    pub fn apply_forward(&self, data: &mut Vec<u8>) -> (r: Result<(), FskcError>)
        requires
            self.wf(),
        ensures
            r is Ok,
            final(data)@ == apply_keys(old(data)@, self.active_keys()),
    {
        let n = self.time_steps.len();
        let out = apply_steps_exec(data, &self.time_steps, self.current_step + 1);
        *data = out;
        Ok(())
    }

    /// XOR every active step key over the data in reverse order, undoing
    /// `apply_forward`.
    pub fn apply_backward(&self, data: &mut Vec<u8>) -> (r: Result<(), FskcError>)
        requires
            self.wf(),
        ensures
            r is Ok,
            final(data)@ == unapply_keys(old(data)@, self.active_keys()),
    {
        let n = self.time_steps.len();
        let out = unapply_steps_exec(data, &self.time_steps, self.current_step + 1);
        *data = out;
        Ok(())
    }

    /// Advance to the next time step; fails when none is left.
    pub fn advance(&mut self) -> (r: Result<(), FskcError>)
        ensures
            final(self).spec_keys() == old(self).spec_keys(),
            final(self).spec_derived() == old(self).spec_derived(),
            r is Ok <==> old(self).spec_current() + 1 < old(self).spec_keys().len(),
            r is Ok ==> final(self).spec_current() == old(self).spec_current() + 1,
            r is Err ==> final(self).spec_current() == old(self).spec_current(),
            old(self).wf() ==> final(self).wf(),
    {
        let n = self.time_steps.len();
        if self.current_step < usize::MAX && self.current_step + 1 < n {
            self.current_step = self.current_step + 1;
            Ok(())
        } else {
            Err(FskcError::EncryptionError("no more time steps available".to_owned()))
        }
    }

    /// The time steps, for the compute engine's direct use.
    pub(crate) fn steps_ref(&self) -> (r: &Vec<TimeStep>)
        ensures
            keys_of(r@) == self.spec_keys(),
    {
        &self.time_steps
    }

    /// One past the current step: how many keys are active.
    pub(crate) fn upto(&self) -> (r: usize)
        requires
            self.wf(),
        ensures
            r as int == self.spec_current() + 1,
            r <= self.spec_keys().len(),
    {
        let n = self.time_steps.len();
        self.current_step + 1
    }

    /// XOR two equal-length ciphertexts in the derived homomorphic
    /// domain.
    pub fn homomorphic_operation(&self, a: &Vec<u8>, b: &Vec<u8>) -> (r: Result<Vec<u8>, FskcError>)
        requires
            self.wf(),
        ensures
            r is Ok <==> a@.len() == b@.len(),
            r matches Ok(v) ==> ({
                &&& v@.len() == a@.len()
                &&& unapply_keys(v@, self.active_keys()) == spec_xor_bytes(
                    unapply_keys(a@, self.active_keys()),
                    unapply_keys(b@, self.active_keys()),
                )
            }),
    {
        if a.len() != b.len() {
            return Err(FskcError::EncryptionError("input lengths must match".to_owned()));
        }
        let n = self.time_steps.len();
        let temp_a = unapply_steps_exec(a, &self.time_steps, self.current_step + 1);
        let temp_b = unapply_steps_exec(b, &self.time_steps, self.current_step + 1);
        proof {
            lemma_apply_keys_len(a@, self.active_keys());
            lemma_apply_keys_len(b@, self.active_keys());
        }
        let mixed = xor_bytes(temp_a.as_slice(), temp_b.as_slice());
        let result = apply_steps_exec(&mixed, &self.time_steps, self.current_step + 1);
        proof {
            lemma_apply_unapply(mixed@, self.active_keys());
            lemma_apply_keys_len(mixed@, self.active_keys());
        }
        Ok(result)
    }
}

} // verus!
