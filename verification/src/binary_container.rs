//! Nested binary containers: each layer holds an evolving 32-byte state
//! driven through the compute engine, and two containers can verify
//! their cryptographic relationship layer by layer.
use crate::crypto::{chacha_pad, spec_xor_bytes, xor_bytes};
use crate::holographic::compute::HomomorphicCompute;
use crate::holographic::HolographicKeyPackage;
use crate::FskcError;
use vstd::prelude::*;

verus! {

/// The byte-wise wrapping sum of a sequence.
pub open spec fn wrap_sum(s: Seq<u8>) -> u8
    decreases s.len(),
{
    if s.len() == 0 {
        0
    } else {
        ((wrap_sum(s.drop_last()) + s.last()) % 256) as u8
    }
}

/// Compute the byte-wise wrapping sum.
fn wrapping_sum(v: &Vec<u8>) -> (r: u8)
    ensures
        r == wrap_sum(v@),
{
    let mut acc: u8 = 0;
    let mut i: usize = 0;
    while i < v.len()
        invariant
            i <= v@.len(),
            acc == wrap_sum(v@.take(i as int)),
        decreases v@.len() - i,
    {
        let sum: u16 = acc as u16 + v[i] as u16;
        acc = (sum % 256) as u8;
        proof {
            assert(v@.take(i + 1).drop_last() =~= v@.take(i as int));
            assert(v@.take(i + 1).last() == v@[i as int]);
        }
        i = i + 1;
    }
    proof {
        assert(v@.take(v@.len() as int) =~= v@);
    }
    acc
}

/// The result of verifying two containers against each other.
#[derive(Debug)]
pub struct VerificationResult {
    /// Whether the outermost layers' relationship is valid.
    pub valid: bool,
    /// How many layers the verification chain covered.
    pub layer_depth: usize,
    /// Whether every covered layer is valid.
    pub all_layers_valid: bool,
}

/// Changing only the compute engine of a well-formed container keeps
/// it well formed.
proof fn lemma_sibling_wf(before: BinaryContainer, after: BinaryContainer)
    requires
        before.wf(),
        after.spec_compute_wf(),
        after.spec_state() == before.spec_state(),
        after.spec_inner() == before.spec_inner(),
    ensures
        after.wf(),
        after.spec_depth() == before.spec_depth(),
{
}

/// Replacing the inner layer of a well-formed container with an equally
/// deep well-formed layer keeps it well formed.
proof fn lemma_rewrapped_wf(before: BinaryContainer, after: BinaryContainer)
    requires
        before.wf(),
        after.spec_compute_wf(),
        after.spec_state() == before.spec_state(),
        (match (after.spec_inner(), before.spec_inner()) {
            (Some(a), Some(b)) => a.wf() && a.spec_depth() == b.spec_depth(),
            (None, None) => true,
            _ => false,
        }),
    ensures
        after.wf(),
        after.spec_depth() == before.spec_depth(),
{
}

/// A layered binary container with nested inner states.
pub struct BinaryContainer {
    compute: HomomorphicCompute,
    state: Vec<u8>,
    iteration: usize,
    inner_layer: Option<Box<BinaryContainer>>,
}

impl BinaryContainer {
    /// How many layers a verification between two containers covers:
    /// it descends while the iterations agree and both containers nest
    /// an inner layer.
    pub open spec fn spec_interact_depth(a: BinaryContainer, b: BinaryContainer) -> int
        decreases a,
    {
        if a.spec_iteration() != b.spec_iteration() {
            1
        } else {
            match (a.spec_inner(), b.spec_inner()) {
                (Some(x), Some(y)) => 1 + Self::spec_interact_depth(*x, *y),
                _ => 1,
            }
        }
    }

    /// Whether every covered layer of a verification is in step.
    pub open spec fn spec_interact_all_valid(a: BinaryContainer, b: BinaryContainer) -> bool
        decreases a,
    {
        if a.spec_iteration() != b.spec_iteration() {
            false
        } else {
            match (a.spec_inner(), b.spec_inner()) {
                (Some(x), Some(y)) => Self::spec_interact_all_valid(*x, *y),
                _ => true,
            }
        }
    }

    /// Every container nests at least one layer.
    proof fn lemma_depth_pos(a: BinaryContainer)
        ensures
            a.spec_depth() >= 1,
        decreases a,
    {
        match a.spec_inner() {
            Some(x) => {
                Self::lemma_depth_pos(*x);
            },
            None => {},
        }
    }

    /// A verification chain covers at least one and at most the
    /// container's own number of layers.
    proof fn lemma_interact_depth_bound(a: BinaryContainer, b: BinaryContainer)
        requires
            a.wf(),
        ensures
            1 <= Self::spec_interact_depth(a, b) <= a.spec_depth(),
        decreases a,
    {
        Self::lemma_depth_pos(a);
        if a.spec_iteration() == b.spec_iteration() {
            match (a.spec_inner(), b.spec_inner()) {
                (Some(x), Some(y)) => {
                    Self::lemma_interact_depth_bound(*x, *y);
                },
                _ => {},
            }
        }
    }

    /// The container's state bytes.
    pub closed spec fn spec_state(&self) -> Seq<u8> {
        self.state@
    }

    /// The container's iteration count.
    pub closed spec fn spec_iteration(&self) -> int {
        self.iteration as int
    }

    /// The nested inner container, if any.
    pub closed spec fn spec_inner(&self) -> Option<Box<BinaryContainer>> {
        self.inner_layer
    }

    /// How many layers the container nests, itself included.
    pub open spec fn spec_depth(&self) -> int
        decreases *self,
    {
        match self.spec_inner() {
            Some(inner) => 1 + inner.spec_depth(),
            None => 1,
        }
    }

    /// A 32-byte state and a sound engine at every layer.
    pub open spec fn wf(&self) -> bool
        decreases *self,
    {
        &&& self.spec_compute_wf()
        &&& self.spec_state().len() == 32
        &&& self.spec_depth() <= 0xFFFF_FFFF
        &&& (match self.spec_inner() {
            Some(inner) => inner.wf(),
            None => true,
        })
    }

    /// Whether this layer's compute engine is well formed.
    pub closed spec fn spec_compute_wf(&self) -> bool {
        self.compute.wf()
    }

    /// Create a container of the given number of nested layers, with
    /// keys and states drawn deterministically from the seed.
    pub fn new(seed: u64, depth: usize) -> (r: Result<BinaryContainer, FskcError>)
        requires
            depth <= 0xFFFF_FFFF,
        ensures
            r matches Ok(c) ==> ({
                &&& c.wf()
                &&& c.spec_iteration() == 0
                &&& c.spec_depth() == (if depth >= 1 {
                    depth as int
                } else {
                    1
                })
            }),
            r is Ok,
        decreases depth,
    {
        let key = chacha_pad(seed, 32);
        let state = chacha_pad(seed.wrapping_add(1), 32);
        let mut pkg = HolographicKeyPackage::new(key);
        match pkg.add_time_step(seed.wrapping_add(2)) {
            Ok(()) => {},
            Err(e) => {
                return Err(e);
            },
        }
        let inner_layer: Option<Box<BinaryContainer>> = if depth > 1 {
            let inner_seed = seed.wrapping_add(3).wrapping_add(depth as u64);
            match Self::new(inner_seed, depth - 1) {
                Ok(inner) => Some(Box::new(inner)),
                Err(e) => {
                    return Err(e);
                },
            }
        } else {
            None
        };
        let compute = match HomomorphicCompute::new(pkg) {
            Ok(c) => c,
            Err(e) => {
                return Err(e);
            },
        };
        Ok(BinaryContainer { compute, state, iteration: 0, inner_layer })
    }

    /// Clone the container, XORing a one-time pad over this layer's
    /// state and a derived pad over each inner layer's.
    pub fn clone_with_pad(&self, pad: &[u8]) -> (r: Result<BinaryContainer, FskcError>)
        requires
            self.wf(),
            pad@.len() >= 1,
        ensures
            r matches Ok(c) ==> ({
                &&& c.wf()
                &&& c.spec_depth() == self.spec_depth()
                &&& c.spec_state() == crate::crypto::spec_xor_cycle(self.spec_state(), pad@)
            }),
        decreases *self,
    {
        let cloned_state = crate::crypto::xor_cycle(self.state.as_slice(), pad);
        let mut container = match Self::new((self.iteration as u64).wrapping_add(1), self.depth()) {
            Ok(c) => c,
            Err(e) => {
                return Err(e);
            },
        };
        container.state = cloned_state;
        match &self.inner_layer {
            Some(inner) => {
                let m: usize = if pad.len() < 32 {
                    pad.len()
                } else {
                    32
                };
                let mut inner_pad: Vec<u8> = Vec::new();
                let mut i: usize = 0;
                while i < m
                    invariant
                        i <= m,
                        m <= pad@.len(),
                        m <= self.spec_state().len(),
                        inner_pad@.len() == i,
                    decreases m - i,
                {
                    inner_pad.push(self.state[i] ^ pad[i]);
                    i = i + 1;
                }
                let inner_clone = match inner.clone_with_pad(inner_pad.as_slice()) {
                    Ok(c) => c,
                    Err(e) => {
                        return Err(e);
                    },
                };
                container.inner_layer = Some(Box::new(inner_clone));
            },
            None => {
                container.inner_layer = None;
            },
        }
        proof {
            crate::crypto::lemma_xor_cycle_len(self.spec_state(), pad@);
        }
        Ok(container)
    }

    /// Evolve the state by one iteration: mix in iteration-specific
    /// entropy through the compute engine, rotate for diffusion, and
    /// recurse into the inner layer.
    pub fn iterate(&mut self) -> (r: Result<(), FskcError>)
        requires
            old(self).wf(),
        ensures
            final(self).wf(),
            final(self).spec_depth() == old(self).spec_depth(),
            r is Ok ==> final(self).spec_iteration() == old(self).spec_iteration() + 1,
        decreases *old(self),
    {
        if self.iteration == usize::MAX {
            return Err(FskcError::Custom("iteration counter exhausted".to_owned()));
        }
        let entropy = chacha_pad((self.iteration as u64).wrapping_mul(0x517c_c1b7_2722_0a95), 32);
        match self.compute.load(0, &self.state) {
            Ok(()) => {},
            Err(e) => {
                return Err(e);
            },
        }
        match self.compute.load(1, &entropy) {
            Ok(()) => {},
            Err(e) => {
                return Err(e);
            },
        }
        proof {
            assert(self.compute.spec_plain(0) == old(self).spec_state());
            assert(self.compute.spec_plain(1) == entropy@);
        }
        match self.compute.compute(crate::holographic::compute::Operation::Add, 0, 1) {
            Ok(()) => {},
            Err(e) => {
                return Err(e);
            },
        }
        match self.compute.compute(crate::holographic::compute::Operation::Xor, 0, 1) {
            Ok(()) => {},
            Err(e) => {
                return Err(e);
            },
        }
        let intermediate = match self.compute.read(0) {
            Ok(v) => v,
            Err(e) => {
                return Err(e);
            },
        };
        let rotated = rotate_left_one(&intermediate);
        match self.compute.load(0, &rotated) {
            Ok(()) => {},
            Err(e) => {
                return Err(e);
            },
        }
        match self.compute.compute(crate::holographic::compute::Operation::Add, 0, 0) {
            Ok(()) => {},
            Err(e) => {
                return Err(e);
            },
        }
        match self.compute.compute(crate::holographic::compute::Operation::Xor, 0, 1) {
            Ok(()) => {},
            Err(e) => {
                return Err(e);
            },
        }
        let new_state = match self.compute.read(0) {
            Ok(v) => v,
            Err(e) => {
                return Err(e);
            },
        };
        if new_state.len() != 32 {
            return Err(FskcError::Custom("invalid state size".to_owned()));
        }
        self.state = new_state;
        self.iteration = self.iteration + 1;
        match &mut self.inner_layer {
            Some(inner) => {
                match inner.iterate() {
                    Ok(()) => Ok(()),
                    Err(e) => Err(e),
                }
            },
            None => Ok(()),
        }
    }

    /// Verify the cryptographic relationship with another container:
    /// layers out of step are invalid; layers in step always satisfy the
    /// checked sum relation, and the verification then descends into the
    /// inner layers.
    pub fn interact(&mut self, other: &mut BinaryContainer) -> (r: Result<
        VerificationResult,
        FskcError,
    >)
        requires
            old(self).wf(),
            old(other).wf(),
        ensures
            final(self).wf(),
            final(other).wf(),
            final(self).spec_depth() == old(self).spec_depth(),
            final(other).spec_depth() == old(other).spec_depth(),
            r matches Ok(v) ==> (v.valid == (old(self).spec_iteration() == old(
                other,
            ).spec_iteration())),
            r matches Ok(v) ==> v.layer_depth as int == Self::spec_interact_depth(
                *old(self),
                *old(other),
            ),
            r matches Ok(v) ==> v.all_layers_valid == Self::spec_interact_all_valid(
                *old(self),
                *old(other),
            ),
        decreases *old(self),
    {
        if self.iteration != other.iteration {
            return Ok(VerificationResult { valid: false, layer_depth: 1, all_layers_valid: false });
        }
        match self.compute.load(0, &self.state) {
            Ok(()) => {},
            Err(e) => {
                proof {
                    lemma_sibling_wf(*old(self), *self);
                }
                return Err(e);
            },
        }
        match self.compute.load(1, &other.state) {
            Ok(()) => {},
            Err(e) => {
                proof {
                    lemma_sibling_wf(*old(self), *self);
                }
                return Err(e);
            },
        }
        proof {
            assert(self.compute.spec_plain(0) == old(self).spec_state());
            assert(self.compute.spec_plain(1) == old(other).spec_state());
        }
        match self.compute.compute(crate::holographic::compute::Operation::Xor, 0, 1) {
            Ok(()) => {},
            Err(e) => {
                proof {
                    lemma_sibling_wf(*old(self), *self);
                }
                return Err(e);
            },
        }
        let interaction = match self.compute.read(0) {
            Ok(v) => v,
            Err(e) => {
                proof {
                    lemma_sibling_wf(*old(self), *self);
                }
                return Err(e);
            },
        };
        proof {
            lemma_sibling_wf(*old(self), *self);
        }
        let expected_sum = wrapping_sum(&interaction);
        let actual = xor_bytes(self.state.as_slice(), other.state.as_slice());
        let actual_sum = wrapping_sum(&actual);
        proof {
            assert(interaction@ == spec_xor_bytes(old(self).spec_state(), old(other).spec_state()));
            assert(actual@ == spec_xor_bytes(old(self).spec_state(), old(other).spec_state()));
        }
        let current_valid = expected_sum == actual_sum;
        if current_valid {
            let descend = match (&mut self.inner_layer, &mut other.inner_layer) {
                (Some(_), Some(_)) => true,
                _ => false,
            };
            if descend {
                let inner_result = match (&mut self.inner_layer, &mut other.inner_layer) {
                    (Some(inner), Some(other_inner)) => {
                        match inner.interact(other_inner) {
                            Ok(v) => v,
                            Err(e) => {
                                return Err(e);
                            },
                        }
                    },
                    _ => {
                        return Err(FskcError::Custom("missing inner layer".to_owned()));
                    },
                };
                proof {
                    lemma_rewrapped_wf(*old(self), *self);
                    match (old(self).spec_inner(), old(other).spec_inner()) {
                        (Some(x), Some(y)) => {
                            Self::lemma_interact_depth_bound(*x, *y);
                        },
                        _ => {},
                    }
                }
                let depth_value: usize = inner_result.layer_depth + 1;
                return Ok(
                    VerificationResult {
                        valid: true,
                        layer_depth: depth_value,
                        all_layers_valid: inner_result.all_layers_valid,
                    },
                );
            }
        }
        Ok(
            VerificationResult {
                valid: current_valid,
                layer_depth: 1,
                all_layers_valid: current_valid,
            },
        )
    }

    /// The current state of the container.
    pub fn state(&self) -> (r: &[u8])
        ensures
            r@ == self.spec_state(),
    {
        self.state.as_slice()
    }

    /// The current iteration count.
    pub fn iteration(&self) -> (r: usize)
        ensures
            r == self.spec_iteration(),
    {
        self.iteration
    }

    /// The total depth of nested layers.
    pub fn depth(&self) -> (r: usize)
        requires
            self.wf(),
        ensures
            r == self.spec_depth(),
        decreases *self,
    {
        match &self.inner_layer {
            Some(inner) => 1 + inner.depth(),
            None => 1,
        }
    }
}

/// Rotate the bytes one position left, for diffusion.
fn rotate_left_one(v: &Vec<u8>) -> (r: Vec<u8>)
    ensures
        r@.len() == v@.len(),
        v@.len() > 0 ==> r@ == v@.skip(1) + v@.take(1),
{
    if v.len() == 0 {
        return Vec::new();
    }
    let mut out: Vec<u8> = Vec::new();
    let mut i: usize = 1;
    while i < v.len()
        invariant
            1 <= i <= v@.len(),
            out@ == v@.subrange(1, i as int),
        decreases v@.len() - i,
    {
        out.push(v[i]);
        proof {
            assert(out@ =~= v@.subrange(1, i + 1));
        }
        i = i + 1;
    }
    out.push(v[0]);
    proof {
        assert(out@ =~= v@.skip(1) + v@.take(1));
    }
    out
}

} // verus!
