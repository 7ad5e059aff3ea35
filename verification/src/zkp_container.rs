//! A linear container with forward and backward transition proofs: a
//! proof is the byte-wise difference between two states, and a
//! transition is accepted exactly when adding the proof to the old state
//! reproduces the new one.
use crate::holographic::compute::{
    spec_add_seq, spec_sub_seq, HomomorphicCompute, Operation,
};
use crate::pairlet::copy_u8_vec;
use crate::FskcError;
use vstd::prelude::*;

verus! {

/// Adding back a byte-wise difference restores the original value: for
/// states of equal length, `b + (a - b) == a`, carry and borrow chains
/// included.
pub proof fn lemma_sub_then_add(a: Seq<u8>, b: Seq<u8>, k: int)
    requires
        a.len() == b.len(),
        0 <= k <= a.len(),
    ensures
        spec_add_seq(b, spec_sub_seq(a, b, a.len() as int).0, k).0 == a.take(k),
        spec_add_seq(b, spec_sub_seq(a, b, a.len() as int).0, k).1 == spec_sub_seq(a, b, k).1,
    decreases k,
{
    let diff = spec_sub_seq(a, b, a.len() as int).0;
    lemma_sub_prefix(a, b, a.len() as int, k);
    if k > 0 {
        lemma_sub_then_add(a, b, k - 1);
        lemma_sub_prefix(a, b, a.len() as int, k - 1);
        assert(diff[k - 1] == spec_sub_seq(a, b, k).0[k - 1]);
        assert(spec_sub_seq(a, b, k).0 == spec_sub_seq(a, b, k - 1).0.push(
            ((a[k - 1] - b[k - 1] - (if spec_sub_seq(a, b, k - 1).1 {
                1int
            } else {
                0int
            })) % 256) as u8,
        ));
        assert(a.take(k) =~= a.take(k - 1).push(a[k - 1]));
    } else {
        assert(a.take(0) =~= Seq::<u8>::empty());
    }
}

/// A shorter subtraction run is a prefix of a longer one.
pub proof fn lemma_sub_prefix(a: Seq<u8>, b: Seq<u8>, n: int, k: int)
    requires
        0 <= k <= n,
    ensures
        spec_sub_seq(a, b, n).0.take(k) == spec_sub_seq(a, b, k).0,
        spec_sub_seq(a, b, n).0.len() == n,
        spec_sub_seq(a, b, k).0.len() == k,
    decreases n,
{
    if n > 0 {
        if k == n {
            lemma_sub_prefix(a, b, n - 1, n - 1);
            assert(spec_sub_seq(a, b, n).0.take(n) =~= spec_sub_seq(a, b, n).0);
        } else {
            lemma_sub_prefix(a, b, n - 1, k);
            assert(spec_sub_seq(a, b, n).0.take(k) =~= spec_sub_seq(a, b, n - 1).0.take(k));
        }
    } else {
        assert(spec_sub_seq(a, b, 0).0.take(0) =~= spec_sub_seq(a, b, 0).0);
    }
}

/// A linear container with forward and backward proof verification.
pub struct ZkpContainer {
    compute: HomomorphicCompute,
    state: Vec<u8>,
    forward_proof: Option<Vec<u8>>,
    backward_proof: Option<Vec<u8>>,
}

impl ZkpContainer {
    /// The current state bytes.
    pub closed spec fn spec_state(&self) -> Seq<u8> {
        self.state@
    }

    /// Whether the compute engine is well formed.
    pub closed spec fn spec_compute_wf(&self) -> bool {
        self.compute.wf()
    }

    /// The container's invariant.
    pub open spec fn wf(&self) -> bool {
        self.spec_compute_wf()
    }

    /// Create a container with an initial state.
    pub fn new(compute: HomomorphicCompute, initial_state: Vec<u8>) -> (r: Result<
        ZkpContainer,
        FskcError,
    >)
        requires
            compute.wf(),
        ensures
            r is Ok,
            r matches Ok(c) ==> (c.wf() && c.spec_state() == initial_state@),
    {
        Ok(ZkpContainer { compute, state: initial_state, forward_proof: None, backward_proof: None })
    }

    /// The byte-wise difference of two values, run through the compute
    /// engine.
    fn difference(&mut self, minuend: &Vec<u8>, subtrahend: &Vec<u8>) -> (r: Result<Vec<u8>, FskcError>)
        requires
            old(self).wf(),
            minuend@.len() == subtrahend@.len(),
        ensures
            final(self).wf(),
            final(self).spec_state() == old(self).spec_state(),
            r is Ok,
            r matches Ok(p) ==> p@ == spec_sub_seq(minuend@, subtrahend@, minuend@.len() as int).0,
    {
        match self.compute.load(0, minuend) {
            Ok(()) => {},
            Err(e) => {
                return Err(e);
            },
        }
        match self.compute.load(1, subtrahend) {
            Ok(()) => {},
            Err(e) => {
                return Err(e);
            },
        }
        match self.compute.compute(Operation::Sub, 0, 1) {
            Ok(()) => {},
            Err(e) => {
                return Err(e);
            },
        }
        self.compute.read(0)
    }

    /// The byte-wise sum of two values, run through the compute engine.
    fn sum(&mut self, a: &Vec<u8>, b: &Vec<u8>) -> (r: Result<Vec<u8>, FskcError>)
        requires
            old(self).wf(),
            a@.len() == b@.len(),
        ensures
            final(self).wf(),
            final(self).spec_state() == old(self).spec_state(),
            r is Ok,
            r matches Ok(p) ==> p@ == spec_add_seq(a@, b@, a@.len() as int).0,
    {
        match self.compute.load(0, a) {
            Ok(()) => {},
            Err(e) => {
                return Err(e);
            },
        }
        match self.compute.load(1, b) {
            Ok(()) => {},
            Err(e) => {
                return Err(e);
            },
        }
        match self.compute.compute(Operation::Add, 0, 1) {
            Ok(()) => {},
            Err(e) => {
                return Err(e);
            },
        }
        self.compute.read(0)
    }

    /// Generate the proof for moving to the next state: the difference
    /// between the next state and the current one.
    pub fn prove_next(&mut self, next_state: &Vec<u8>) -> (r: Result<Vec<u8>, FskcError>)
        requires
            old(self).wf(),
            next_state@.len() == old(self).spec_state().len(),
        ensures
            final(self).wf(),
            final(self).spec_state() == old(self).spec_state(),
            r matches Ok(p) ==> p@ == spec_sub_seq(
                next_state@,
                old(self).spec_state(),
                next_state@.len() as int,
            ).0,
            r matches Ok(p) ==> spec_add_seq(
                old(self).spec_state(),
                p@,
                next_state@.len() as int,
            ).0 == next_state@,
    {
        proof {
            lemma_sub_then_add(next_state@, old(self).spec_state(), next_state@.len() as int);
            assert(next_state@.take(next_state@.len() as int) =~= next_state@);
        }
        let state = copy_u8_vec(&self.state);
        let proof_bytes = match self.difference(next_state, &state) {
            Ok(p) => p,
            Err(e) => {
                return Err(e);
            },
        };
        let stored = copy_u8_vec(&proof_bytes);
        self.forward_proof = Some(stored);
        Ok(proof_bytes)
    }

    /// Generate the proof for moving to the previous state: the
    /// difference between the current state and the previous one.
    pub fn prove_previous(&mut self, prev_state: &Vec<u8>) -> (r: Result<Vec<u8>, FskcError>)
        requires
            old(self).wf(),
            prev_state@.len() == old(self).spec_state().len(),
        ensures
            final(self).wf(),
            final(self).spec_state() == old(self).spec_state(),
            r matches Ok(p) ==> p@ == spec_sub_seq(
                old(self).spec_state(),
                prev_state@,
                prev_state@.len() as int,
            ).0,
            r matches Ok(p) ==> spec_add_seq(
                prev_state@,
                p@,
                prev_state@.len() as int,
            ).0 == old(self).spec_state(),
    {
        proof {
            lemma_sub_then_add(old(self).spec_state(), prev_state@, prev_state@.len() as int);
            assert(old(self).spec_state().take(old(self).spec_state().len() as int) =~= old(
                self,
            ).spec_state());
        }
        let state = copy_u8_vec(&self.state);
        let proof_bytes = match self.difference(&state, prev_state) {
            Ok(p) => p,
            Err(e) => {
                return Err(e);
            },
        };
        let stored = copy_u8_vec(&proof_bytes);
        self.backward_proof = Some(stored);
        Ok(proof_bytes)
    }

    /// Verify a forward proof: whether the current state plus the proof
    /// equals the next state.
    pub fn verify_next(&mut self, next_state: &Vec<u8>, transition_proof: &Vec<u8>) -> (r: Result<
        bool,
        FskcError,
    >)
        requires
            old(self).wf(),
            transition_proof@.len() == old(self).spec_state().len(),
        ensures
            final(self).wf(),
            final(self).spec_state() == old(self).spec_state(),
            r is Ok,
            r matches Ok(m) ==> m == (spec_add_seq(
                old(self).spec_state(),
                transition_proof@,
                transition_proof@.len() as int,
            ).0 == next_state@),
    {
        let state = copy_u8_vec(&self.state);
        let computed = match self.sum(&state, transition_proof) {
            Ok(v) => v,
            Err(e) => {
                return Err(e);
            },
        };
        Ok(crate::pairlet::keygen::bytes_equal(computed.as_slice(), next_state.as_slice()))
    }

    /// Verify a backward proof: whether the previous state plus the
    /// proof equals the current state.
    pub fn verify_previous(&mut self, prev_state: &Vec<u8>, transition_proof: &Vec<u8>) -> (r: Result<
        bool,
        FskcError,
    >)
        requires
            old(self).wf(),
            transition_proof@.len() == prev_state@.len(),
        ensures
            final(self).wf(),
            final(self).spec_state() == old(self).spec_state(),
            r is Ok,
            r matches Ok(m) ==> m == (spec_add_seq(
                prev_state@,
                transition_proof@,
                transition_proof@.len() as int,
            ).0 == old(self).spec_state()),
    {
        let computed = match self.sum(prev_state, transition_proof) {
            Ok(v) => v,
            Err(e) => {
                return Err(e);
            },
        };
        let state = copy_u8_vec(&self.state);
        Ok(crate::pairlet::keygen::bytes_equal(computed.as_slice(), state.as_slice()))
    }

    /// Move to the next state when its proof verifies; a failed proof is
    /// an error and changes nothing.
    pub fn advance(&mut self, next_state: Vec<u8>, transition_proof: &Vec<u8>) -> (r: Result<
        (),
        FskcError,
    >)
        requires
            old(self).wf(),
            transition_proof@.len() == old(self).spec_state().len(),
        ensures
            final(self).wf(),
            r is Ok <==> spec_add_seq(
                old(self).spec_state(),
                transition_proof@,
                transition_proof@.len() as int,
            ).0 == next_state@,
            r is Ok ==> final(self).spec_state() == next_state@,
            r is Err ==> final(self).spec_state() == old(self).spec_state(),
    {
        let ok = match self.verify_next(&next_state, transition_proof) {
            Ok(m) => m,
            Err(e) => {
                return Err(e);
            },
        };
        if !ok {
            return Err(FskcError::Custom("invalid next state proof".to_owned()));
        }
        self.state = next_state;
        self.forward_proof = None;
        self.backward_proof = None;
        Ok(())
    }

    /// Move to the previous state when its proof verifies; a failed
    /// proof is an error and changes nothing.
    pub fn reverse(&mut self, prev_state: Vec<u8>, transition_proof: &Vec<u8>) -> (r: Result<
        (),
        FskcError,
    >)
        requires
            old(self).wf(),
            transition_proof@.len() == prev_state@.len(),
        ensures
            final(self).wf(),
            r is Ok <==> spec_add_seq(
                prev_state@,
                transition_proof@,
                transition_proof@.len() as int,
            ).0 == old(self).spec_state(),
            r is Ok ==> final(self).spec_state() == prev_state@,
            r is Err ==> final(self).spec_state() == old(self).spec_state(),
    {
        let ok = match self.verify_previous(&prev_state, transition_proof) {
            Ok(m) => m,
            Err(e) => {
                return Err(e);
            },
        };
        if !ok {
            return Err(FskcError::Custom("invalid previous state proof".to_owned()));
        }
        self.state = prev_state;
        self.forward_proof = None;
        self.backward_proof = None;
        Ok(())
    }

    /// The current state.
    pub fn state(&self) -> (r: &[u8])
        ensures
            r@ == self.spec_state(),
    {
        self.state.as_slice()
    }
}

} // verus!
