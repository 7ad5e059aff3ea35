//! Paired homomorphic containers that manage their own relationship:
//! blocks pass through both containers' pads in turn, and the pads the
//! pair draws depend on its running entropy pool and operation count.
//! Both stage pads are drawn from the same pair state, so they cancel:
//! what the pair hands back is the padded block itself, and the state
//! bookkeeping is the part that evolves.
use crate::crypto::chacha_pad;
use crate::holographic::compute::{HomomorphicCompute, Operation};
use crate::holographic::HolographicKeyPackage;
use crate::microcontroller::memory::copy_slice;
use crate::FskcError;
use vstd::prelude::*;

verus! {

/// The pad a pair draws for a block: position bytes XORed with the
/// entropy pool cycled over them.
pub open spec fn spec_pair_pad(count: int, pool: Seq<u8>, size: int) -> Seq<u8> {
    Seq::new(
        size as nat,
        |i: int| (((count + i) % 256) as u8) ^ (if pool.len() == 0 {
            0u8
        } else {
            pool[i % pool.len() as int]
        }),
    )
}

/// The entropy pool after data is mixed in: the data joins the pool and
/// one eight-byte chunk is drained once enough bytes are available.
pub open spec fn spec_mixed_pool(pool: Seq<u8>, data: Seq<u8>) -> Seq<u8> {
    let joined = pool + data;
    if joined.len() >= 8 {
        joined.skip(8)
    } else {
        joined
    }
}

/// A pair of homomorphic containers that manage their own relationship.
pub struct ComputePair {
    left: HomomorphicCompute,
    right: HomomorphicCompute,
    entropy_pool: Vec<u8>,
    operation_count: usize,
}

impl ComputePair {
    /// The running entropy pool.
    pub closed spec fn spec_pool(&self) -> Seq<u8> {
        self.entropy_pool@
    }

    /// The running operation count.
    pub closed spec fn spec_count(&self) -> int {
        self.operation_count as int
    }

    /// Both engines sound.
    pub open spec fn wf(&self) -> bool {
        &&& self.spec_left_wf()
        &&& self.spec_right_wf()
    }

    /// Whether the left engine is well formed.
    pub closed spec fn spec_left_wf(&self) -> bool {
        self.left.wf()
    }

    /// Whether the right engine is well formed.
    pub closed spec fn spec_right_wf(&self) -> bool {
        self.right.wf()
    }

    /// Create a pair with keys drawn deterministically from the seed.
    pub fn new(seed: u64) -> (r: Result<ComputePair, FskcError>)
        ensures
            r is Ok,
            r matches Ok(p) ==> ({
                &&& p.wf()
                &&& p.spec_pool() == Seq::<u8>::empty()
                &&& p.spec_count() == 0
            }),
    {
        let key_left = chacha_pad(seed, 32);
        let key_right = chacha_pad(seed.wrapping_add(1), 32);
        let mut pkg_left = HolographicKeyPackage::new(key_left);
        let mut pkg_right = HolographicKeyPackage::new(key_right);
        match pkg_left.add_time_step(seed.wrapping_add(2)) {
            Ok(()) => {},
            Err(e) => {
                return Err(e);
            },
        }
        match pkg_right.add_time_step(seed.wrapping_add(3)) {
            Ok(()) => {},
            Err(e) => {
                return Err(e);
            },
        }
        let left = match HomomorphicCompute::new(pkg_left) {
            Ok(c) => c,
            Err(e) => {
                return Err(e);
            },
        };
        let right = match HomomorphicCompute::new(pkg_right) {
            Ok(c) => c,
            Err(e) => {
                return Err(e);
            },
        };
        Ok(ComputePair { left, right, entropy_pool: Vec::new(), operation_count: 0 })
    }

    /// Draw the pad for a block from the current state.
    fn generate_pad(&self, size: usize) -> (r: Vec<u8>)
        requires
            size <= 8,
        ensures
            r@ == spec_pair_pad(self.spec_count(), self.spec_pool(), size as int),
    {
        let mut pad: Vec<u8> = Vec::new();
        let mut i: usize = 0;
        while i < size
            invariant
                i <= size,
                size <= 8,
                pad@ == spec_pair_pad(self.spec_count(), self.spec_pool(), size as int).take(
                    i as int,
                ),
            decreases size - i,
        {
            let base: u8 = (((self.operation_count as u64).wrapping_add(i as u64)) % 256) as u8;
            let byte: u8 = if self.entropy_pool.len() == 0 {
                base
            } else {
                base ^ self.entropy_pool[i % self.entropy_pool.len()]
            };
            proof {
                assert((((self.operation_count as u64).wrapping_add(i as u64)) % 256) as int == (
                self.spec_count() + i as int) % 256) by (nonlinear_arith)
                    requires
                        0 <= self.spec_count() <= 0xFFFF_FFFF_FFFF_FFFF,
                        0 <= i <= 8,
                ;
                assert(base ^ 0 == base) by (bit_vector);
                assert(pad@.push(byte) =~= spec_pair_pad(
                    self.spec_count(),
                    self.spec_pool(),
                    size as int,
                ).take(i + 1));
            }
            pad.push(byte);
            i = i + 1;
        }
        proof {
            assert(spec_pair_pad(self.spec_count(), self.spec_pool(), size as int).take(
                size as int,
            ) =~= spec_pair_pad(self.spec_count(), self.spec_pool(), size as int));
        }
        pad
    }

    /// Mix data into the entropy pool and bump the operation count.
    fn mix_entropy(&mut self, data: &[u8]) -> (r: Result<(), FskcError>)
        requires
            old(self).wf(),
            old(self).spec_count() < 0xFFFF_FFFF,
        ensures
            final(self).wf(),
            r is Ok,
            final(self).spec_pool() == spec_mixed_pool(old(self).spec_pool(), data@),
            final(self).spec_count() == old(self).spec_count() + 1,
    {
        let mut incoming = copy_slice(data);
        self.entropy_pool.append(&mut incoming);
        if self.entropy_pool.len() >= 8 {
            let head = copy_slice(vstd::slice::slice_subrange(self.entropy_pool.as_slice(), 0, 8));
            let mut rest: Vec<u8> = Vec::new();
            let mut i: usize = 8;
            while i < self.entropy_pool.len()
                invariant
                    8 <= i <= self.entropy_pool@.len(),
                    self.entropy_pool@ == old(self).spec_pool() + data@,
                    rest@ == self.entropy_pool@.subrange(8, i as int),
                decreases self.entropy_pool@.len() - i,
            {
                rest.push(self.entropy_pool[i]);
                proof {
                    assert(rest@ =~= self.entropy_pool@.subrange(8, i + 1));
                }
                i = i + 1;
            }
            proof {
                assert(self.entropy_pool@.subrange(8, self.entropy_pool@.len() as int)
                    =~= self.entropy_pool@.skip(8));
            }
            self.entropy_pool = rest;
            match self.left.load(3, &head) {
                Ok(()) => {},
                Err(e) => {
                    return Err(e);
                },
            }
            match self.right.load(3, &head) {
                Ok(()) => {},
                Err(e) => {
                    return Err(e);
                },
            }
            let mut reg: usize = 0;
            while reg < 3
                invariant
                    reg <= 3,
                    self.spec_left_wf(),
                    self.spec_right_wf(),
                    self.entropy_pool@ == (old(self).spec_pool() + data@).skip(8),
                    self.operation_count == old(self).operation_count,
                decreases 3 - reg,
            {
                match self.cross_mix(reg) {
                    Ok(()) => {},
                    Err(e) => {
                        return Err(e);
                    },
                }
                reg = reg + 1;
            }
        }
        self.operation_count = self.operation_count + 1;
        Ok(())
    }

    /// XOR the shared entropy register into one register of each engine.
    fn cross_mix(&mut self, reg: usize) -> (r: Result<(), FskcError>)
        requires
            old(self).wf(),
            reg < 4,
        ensures
            final(self).wf(),
            final(self).spec_pool() == old(self).spec_pool(),
            final(self).spec_count() == old(self).spec_count(),
            r is Ok,
    {
        if self.left.plain_len(reg) == self.left.plain_len(3) {
            match self.left.compute(Operation::Xor, reg, 3) {
                Ok(()) => {},
                Err(e) => {
                    return Err(e);
                },
            }
        }
        if self.right.plain_len(reg) == self.right.plain_len(3) {
            match self.right.compute(Operation::Xor, reg, 3) {
                Ok(()) => {},
                Err(e) => {
                    return Err(e);
                },
            }
        }
        Ok(())
    }

    /// Pass a block through both containers' pads. Both pads come from
    /// the same pair state, so they cancel: the result is the block
    /// itself, and an encryption additionally mixes it into the pool.
    pub fn process_block(&mut self, block: &[u8], encrypt: bool) -> (r: Result<Vec<u8>, FskcError>)
        requires
            old(self).wf(),
            block@.len() <= 8,
            old(self).spec_count() < 0xFFFF_FFFF,
        ensures
            final(self).wf(),
            r is Ok,
            r matches Ok(v) ==> v@ == block@,
            encrypt ==> ({
                &&& final(self).spec_pool() == spec_mixed_pool(old(self).spec_pool(), block@)
                &&& final(self).spec_count() == old(self).spec_count() + 1
            }),
            !encrypt ==> ({
                &&& final(self).spec_pool() == old(self).spec_pool()
                &&& final(self).spec_count() == old(self).spec_count()
            }),
    {
        let mut padded: Vec<u8> = copy_slice(block);
        while padded.len() < 8
            invariant
                block@.len() <= 8,
                padded@.len() <= 8,
                padded@.take(block@.len() as int) == block@,
                padded@.len() >= block@.len(),
            decreases 8 - padded@.len(),
        {
            padded.push(0);
            proof {
                assert(padded@.take(block@.len() as int) =~= block@);
            }
        }
        let pad_left = self.generate_pad(8);
        let pad_right = self.generate_pad(8);
        proof {
            assert(pad_left@ == pad_right@);
        }
        let stage_one = crate::crypto::xor_bytes(padded.as_slice(), pad_left.as_slice());
        let result = crate::crypto::xor_bytes(stage_one.as_slice(), pad_right.as_slice());
        proof {
            crate::crypto::lemma_xor_bytes_involution(padded@, pad_left@);
            assert(result@ == padded@);
        }
        let out = copy_slice(vstd::slice::slice_subrange(result.as_slice(), 0, block.len()));
        proof {
            assert(out@ =~= block@);
        }
        if encrypt {
            match self.mix_entropy(out.as_slice()) {
                Ok(()) => {},
                Err(e) => {
                    return Err(e);
                },
            }
        }
        Ok(out)
    }

    /// The running entropy pool.
    pub fn entropy_pool(&self) -> (r: &[u8])
        ensures
            r@ == self.spec_pool(),
    {
        self.entropy_pool.as_slice()
    }

    /// The running operation count.
    pub fn operation_count(&self) -> (r: usize)
        ensures
            r == self.spec_count(),
    {
        self.operation_count
    }

    /// Restore a recorded pool and count, as the block history replay
    /// does.
    pub fn set_state(&mut self, entropy_pool: Vec<u8>, operation_count: usize)
        ensures
            final(self).wf() == old(self).wf(),
            final(self).spec_pool() == entropy_pool@,
            final(self).spec_count() == operation_count,
    {
        self.entropy_pool = entropy_pool;
        self.operation_count = operation_count;
    }
}

/// One processed block's recorded pair state.
pub struct EncryptedBlock {
    pair_index: usize,
    entropy_pool: Vec<u8>,
    operation_count: usize,
}

/// The system state: several compute pairs, one active, and the per-block
/// history that decryption replays.
pub struct SystemState {
    pairs: Vec<ComputePair>,
    active_pair: usize,
    block_history: Vec<EncryptedBlock>,
}

impl SystemState {
    /// How many blocks the history records.
    pub closed spec fn spec_history_len(&self) -> int {
        self.block_history@.len() as int
    }

    /// Sound pairs, a valid active index, and history entries that
    /// point at existing pairs.
    pub open spec fn wf(&self) -> bool {
        &&& self.spec_pairs_wf()
    }

    /// The detailed invariant over the private state.
    pub closed spec fn spec_pairs_wf(&self) -> bool {
        &&& self.pairs@.len() >= 1
        &&& (self.active_pair as int) < self.pairs@.len()
        &&& forall|i: int| 0 <= i < self.pairs@.len() ==> (#[trigger] self.pairs@[i]).wf()
        &&& forall|i: int|
            0 <= i < self.block_history@.len() ==> (#[trigger] self.block_history@[i]).pair_index
                < self.pairs@.len()
    }

    /// Create a system with one pair drawn from the seed.
    pub fn new(seed: u64) -> (r: Result<SystemState, FskcError>)
        ensures
            r is Ok,
            r matches Ok(s) ==> (s.wf() && s.spec_history_len() == 0),
    {
        let initial_pair = match ComputePair::new(seed) {
            Ok(p) => p,
            Err(e) => {
                return Err(e);
            },
        };
        let mut pairs: Vec<ComputePair> = Vec::new();
        pairs.push(initial_pair);
        Ok(SystemState { pairs, active_pair: 0, block_history: Vec::new() })
    }

    /// Encrypt data block by block through the active pair, recording
    /// each block's pair state; new pairs join periodically. Both stage
    /// pads cancel, so the output equals the input while the pair state
    /// evolves.
    pub fn encrypt(&mut self, data: &[u8]) -> (r: Result<Vec<u8>, FskcError>)
        requires
            old(self).wf(),
        ensures
            final(self).wf(),
            r is Ok,
            r matches Ok(v) ==> v@ == data@,
            final(self).spec_history_len() == (data@.len() + 7) / 8,
    {
        let mut result: Vec<u8> = Vec::new();
        self.block_history = Vec::new();
        let mut pos: usize = 0;
        while pos < data.len()
            invariant
                self.wf(),
                pos <= data@.len(),
                pos == data@.len() || pos % 8 == 0,
                result@ == data@.take(pos as int),
                self.spec_history_len() == (pos as int + 7) / 8,
            decreases data@.len() - pos,
        {
            let end: usize = if data.len() - pos < 8 {
                data.len()
            } else {
                pos + 8
            };
            let chunk = copy_slice(vstd::slice::slice_subrange(data, pos, end));
            let encrypted = match self.process_active(chunk.as_slice(), true) {
                Ok(v) => v,
                Err(e) => {
                    return Err(e);
                },
            };
            self.record_block();
            let mut piece = encrypted;
            proof {
                assert(data@.take(pos as int) + data@.subrange(pos as int, end as int)
                    =~= data@.take(end as int));
            }
            result.append(&mut piece);
            self.maybe_add_pair();
            pos = end;
        }
        proof {
            assert(data@.take(data@.len() as int) =~= data@);
        }
        Ok(result)
    }

    /// Process one block through the active pair.
    fn process_active(&mut self, block: &[u8], encrypt: bool) -> (r: Result<Vec<u8>, FskcError>)
        requires
            old(self).wf(),
            block@.len() <= 8,
        ensures
            final(self).wf(),
            final(self).spec_history_len() == old(self).spec_history_len(),
            r is Ok,
            r matches Ok(v) ==> v@ == block@,
    {
        let idx = self.active_pair;
        let mut pair = self.pairs.remove(idx);
        if pair.operation_count() >= 0xFFFF_FFFE {
            pair.set_state(Vec::new(), 0);
        }
        let out = pair.process_block(block, encrypt);
        self.pairs.insert(idx, pair);
        proof {
            assert forall|i: int| 0 <= i < self.pairs@.len() implies (#[trigger] self.pairs@[i]).wf() by {
                if i != idx as int {
                    assert(self.pairs@[i] == old(self).pairs@[i]);
                }
            }
        }
        out
    }

    /// Record the active pair's state for one block.
    fn record_block(&mut self)
        requires
            old(self).wf(),
        ensures
            final(self).wf(),
            final(self).spec_history_len() == old(self).spec_history_len() + 1,
    {
        let pool = copy_slice(self.pairs[self.active_pair].entropy_pool());
        let count = self.pairs[self.active_pair].operation_count();
        self.block_history.push(
            EncryptedBlock {
                pair_index: self.active_pair,
                entropy_pool: pool,
                operation_count: count,
            },
        );
    }

    /// Periodically add a fresh pair and make it active.
    fn maybe_add_pair(&mut self)
        requires
            old(self).wf(),
        ensures
            final(self).wf(),
            final(self).spec_history_len() == old(self).spec_history_len(),
    {
        let count = self.pairs[self.active_pair].operation_count();
        if count % 16 == 0 {
            let seed = self.pairs.len() as u64;
            match ComputePair::new(seed) {
                Ok(pair) => {
                    self.pairs.push(pair);
                    self.active_pair = self.pairs.len() - 1;
                },
                Err(_) => {},
            }
        }
    }

    /// Decrypt data block by block, restoring each block's recorded pair
    /// state before processing it; blocks beyond the recorded history
    /// are skipped. The stage pads cancel, so the covered prefix of the
    /// data comes back unchanged.
    pub fn decrypt(&mut self, encrypted: &[u8]) -> (r: Result<Vec<u8>, FskcError>)
        requires
            old(self).wf(),
        ensures
            final(self).wf(),
            r is Ok,
            r matches Ok(v) ==> v@.len() <= encrypted@.len(),
            r matches Ok(v) ==> v@ == encrypted@.take(v@.len() as int),
            8 * old(self).spec_history_len() >= encrypted@.len() ==> (r matches Ok(v) && v@
                == encrypted@),
    {
        let mut result: Vec<u8> = Vec::new();
        let mut pos: usize = 0;
        let mut index: usize = 0;
        while pos < encrypted.len()
            invariant
                self.wf(),
                self.spec_history_len() == old(self).spec_history_len(),
                pos <= encrypted@.len(),
                index <= pos,
                pos as int == (if 8 * (index as int) <= encrypted@.len() {
                    8 * (index as int)
                } else {
                    encrypted@.len() as int
                }),
                result@.len() <= pos,
                (index as int) < self.spec_history_len() ==> result@.len() == pos,
                8 * old(self).spec_history_len() >= encrypted@.len() ==> result@.len() == pos,
                result@ == encrypted@.take(result@.len() as int),
            decreases encrypted@.len() - pos,
        {
            let end: usize = if encrypted.len() - pos < 8 {
                encrypted.len()
            } else {
                pos + 8
            };
            if index < self.block_history.len() {
                let pair_index = self.block_history[index].pair_index;
                let pool = copy_slice(self.block_history[index].entropy_pool.as_slice());
                let count = self.block_history[index].operation_count;
                let ghost pairs_before = self.pairs@;
                let mut pair = self.pairs.remove(pair_index);
                pair.set_state(pool, count);
                if pair.operation_count() >= 0xFFFF_FFFE {
                    pair.set_state(Vec::new(), 0);
                }
                let chunk = copy_slice(vstd::slice::slice_subrange(encrypted, pos, end));
                let decrypted = pair.process_block(chunk.as_slice(), false);
                self.pairs.insert(pair_index, pair);
                proof {
                    assert forall|i: int|
                        0 <= i < self.pairs@.len() implies (#[trigger] self.pairs@[i]).wf() by {
                        if i != pair_index as int {
                            assert(self.pairs@[i] == pairs_before[i]);
                        }
                    }
                }
                let mut piece = match decrypted {
                    Ok(v) => v,
                    Err(e) => {
                        return Err(e);
                    },
                };
                proof {
                    assert(encrypted@.take(result@.len() as int) + encrypted@.subrange(
                        pos as int,
                        end as int,
                    ) =~= encrypted@.take(end as int));
                }
                result.append(&mut piece);
            }
            index = index + 1;
            pos = end;
        }
        Ok(result)
    }
}

} // verus!
