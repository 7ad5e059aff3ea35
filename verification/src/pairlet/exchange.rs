//! Mutual key confirmation between two devices: a fixed number of hash
//! exchange rounds proves both parties hold the same key without
//! transmitting key material.
use super::context::SharedContext;
use super::keygen::{bytes_equal, spec_derived_key, DerivedKey, KeyGenerator, KeyModel};
use crate::crypto::{sha256_digest, sha256_of};
use crate::FskcError;
use vstd::prelude::*;

verus! {

/// Status of the key exchange process.
#[derive(Debug, Clone, Copy, PartialEq, Eq, Structural)]
pub enum ExchangeStatus {
    /// Initial state.
    NotStarted,
    /// Context accepted, generating keys.
    GeneratingKeys,
    /// Keys generated, confirming the match.
    ConfirmingKeys,
    /// Keys confirmed on every round.
    Complete,
    /// The exchange failed.
    Failed,
}

/// Configuration for key exchange.
#[derive(Debug, Clone, Copy, PartialEq, Eq, Structural)]
pub struct ExchangeConfig {
    /// Maximum time to wait for confirmation, in milliseconds. Declared
    /// by the design but not checked against any timer; callers needing
    /// a hard bound must enforce one outside.
    pub confirmation_timeout: u64,
    /// Number of confirmation rounds.
    pub confirmation_rounds: usize,
    /// Minimum required key quality, in thousandths.
    pub min_key_quality: u64,
}

impl Default for ExchangeConfig {
    /// Thirty seconds, three rounds, quality at least 0.8.
    fn default() -> (r: Self)
        ensures
            r == (ExchangeConfig {
                confirmation_timeout: 30_000,
                confirmation_rounds: 3,
                min_key_quality: 800,
            }),
    {
        ExchangeConfig { confirmation_timeout: 30_000, confirmation_rounds: 3, min_key_quality: 800 }
    }
}

/// The eight little-endian bytes of a round number, as the confirmation
/// hash input encodes it.
pub open spec fn le8(n: u64) -> Seq<u8> {
    Seq::new(8, |i: int| ((n >> (8 * i as u64)) & 0xFF) as u8)
}

/// The confirmation hash of a key at a round: the hash of the key bytes
/// followed by the round's little-endian encoding.
pub open spec fn spec_confirmation_hash(key: Seq<u8>, round: u64) -> Seq<u8> {
    sha256_of(key + le8(round))
}

/// The little-endian bytes of a round number.
pub fn u64_le_bytes(n: u64) -> (r: Vec<u8>)
    ensures
        r@ == le8(n),
{
    let mut out: Vec<u8> = Vec::new();
    let mut i: usize = 0;
    while i < 8
        invariant
            i <= 8,
            out@.len() == i,
            forall|j: int| 0 <= j < i ==> out@[j] == ((n >> (8 * j as u64)) & 0xFF) as u8,
        decreases 8 - i,
    {
        let shift: u64 = 8 * (i as u64);
        out.push(((n >> shift) & 0xFF) as u8);
        i = i + 1;
    }
    proof {
        assert(out@ =~= le8(n));
    }
    out
}

/// How one verification round moves the status: a failed machine stays
/// failed until an explicit reset; otherwise a match on the last round
/// completes the exchange, a mismatch fails it, and any other match
/// leaves the status alone.
pub open spec fn spec_verify_step(
    st: ExchangeStatus,
    matched: bool,
    round: int,
    rounds: int,
) -> ExchangeStatus {
    if st is Failed {
        ExchangeStatus::Failed
    } else if matched && round == rounds - 1 {
        ExchangeStatus::Complete
    } else if !matched {
        ExchangeStatus::Failed
    } else {
        st
    }
}

/// The confirmation record after a hash is written at a round: the
/// record grows with empty slots as needed and the round's slot holds
/// the hash; every other slot is untouched.
pub open spec fn spec_record_at(
    hashes: Seq<Option<Seq<u8>>>,
    round: int,
    h: Seq<u8>,
) -> Seq<Option<Seq<u8>>> {
    let padded = if hashes.len() > round {
        hashes
    } else {
        hashes + Seq::new((round + 1 - hashes.len()) as nat, |i: int| None::<Seq<u8>>)
    };
    padded.update(round, Some(h))
}

/// The status after driving rounds 0 to k-1 in order from `st`:
/// `ms[i]` says whether the hashes matched at round i. The step itself
/// keeps a failed machine failed, so no caller discipline is needed.
pub open spec fn spec_run_rounds(st: ExchangeStatus, ms: Seq<bool>, rounds: int, k: int) -> ExchangeStatus
    decreases k,
{
    if k <= 0 {
        st
    } else {
        spec_verify_step(spec_run_rounds(st, ms, rounds, k - 1), ms[k - 1], k - 1, rounds)
    }
}

/// An exchange driven from `ConfirmingKeys` through every round reaches
/// `Complete` exactly when every round's hashes matched; one mismatch
/// leaves it `Failed`.
pub proof fn lemma_exchange_outcome(ms: Seq<bool>, rounds: int)
    requires
        ms.len() == rounds,
        rounds >= 1,
    ensures
        (spec_run_rounds(ExchangeStatus::ConfirmingKeys, ms, rounds, rounds)
            == ExchangeStatus::Complete) <==> (forall|i: int| 0 <= i < rounds ==> ms[i]),
        (exists|i: int| 0 <= i < rounds && !ms[i]) ==> spec_run_rounds(
            ExchangeStatus::ConfirmingKeys,
            ms,
            rounds,
            rounds,
        ) == ExchangeStatus::Failed,
{
    lemma_run_rounds_prefix(ms, rounds, rounds);
}

/// After k rounds the machine is `ConfirmingKeys` while every round so
/// far matched and none was the last, `Complete` once every round
/// matched and the last has run, and `Failed` as soon as one mismatched.
proof fn lemma_run_rounds_prefix(ms: Seq<bool>, rounds: int, k: int)
    requires
        ms.len() == rounds,
        rounds >= 1,
        0 <= k <= rounds,
    ensures
        (forall|i: int| 0 <= i < k ==> ms[i]) && k < rounds ==> spec_run_rounds(
            ExchangeStatus::ConfirmingKeys,
            ms,
            rounds,
            k,
        ) == ExchangeStatus::ConfirmingKeys,
        (forall|i: int| 0 <= i < k ==> ms[i]) && k == rounds ==> spec_run_rounds(
            ExchangeStatus::ConfirmingKeys,
            ms,
            rounds,
            k,
        ) == ExchangeStatus::Complete,
        (exists|i: int| 0 <= i < k && !ms[i]) ==> spec_run_rounds(
            ExchangeStatus::ConfirmingKeys,
            ms,
            rounds,
            k,
        ) == ExchangeStatus::Failed,
    decreases k,
{
    if k > 0 {
        lemma_run_rounds_prefix(ms, rounds, k - 1);
        if exists|i: int| 0 <= i < k && !ms[i] {
            if forall|i: int| 0 <= i < k - 1 ==> ms[i] {
                assert(!ms[k - 1]);
            }
        }
    }
}

/// Manages key exchange between two devices.
pub struct KeyExchange {
    config: ExchangeConfig,
    generator: KeyGenerator,
    status: ExchangeStatus,
    derived_key: Option<DerivedKey>,
    confirmation_hashes: Vec<Option<Vec<u8>>>,
}

impl KeyExchange {
    /// The configuration the exchange was built with.
    pub closed spec fn spec_config(&self) -> ExchangeConfig {
        self.config
    }

    /// The generator the exchange derives keys with.
    pub closed spec fn spec_generator(&self) -> KeyGenerator {
        self.generator
    }

    /// The current status.
    pub closed spec fn spec_status(&self) -> ExchangeStatus {
        self.status
    }

    /// The held key, if any.
    pub closed spec fn spec_key(&self) -> Option<KeyModel> {
        match self.derived_key {
            Some(k) => Some(k@),
            None => None,
        }
    }

    /// The confirmation record: one slot per round, holding the round's
    /// hash once it was generated.
    pub closed spec fn spec_hashes(&self) -> Seq<Option<Seq<u8>>> {
        self.confirmation_hashes@.map(
            |i: int, h: Option<Vec<u8>>| match h {
                Some(v) => Some(v@),
                None => None,
            },
        )
    }

    /// Create a new key exchange.
    pub fn new(config: ExchangeConfig, generator: KeyGenerator) -> (r: Self)
        ensures
            r.spec_config() == config,
            r.spec_generator() == generator,
            r.spec_status() == ExchangeStatus::NotStarted,
            r.spec_key() is None,
            r.spec_hashes() == Seq::<Option<Seq<u8>>>::empty(),
    {
        let r = KeyExchange {
            config,
            generator,
            status: ExchangeStatus::NotStarted,
            derived_key: None,
            confirmation_hashes: Vec::new(),
        };
        proof {
            assert(r.spec_hashes() =~= Seq::<Option<Seq<u8>>>::empty());
        }
        r
    }

    /// Start the exchange over a context. Succeeds exactly when the
    /// context's quality reaches both the exchange's and the generator's
    /// thresholds; the derived key is then held, its verification hash
    /// is the digest of its key bytes, and the status moves to
    /// `ConfirmingKeys`. Every refused context fails the machine.
    pub fn start_exchange(&mut self, context: &SharedContext) -> (r: Result<(), FskcError>)
        ensures
            final(self).spec_config() == old(self).spec_config(),
            final(self).spec_generator() == old(self).spec_generator(),
            final(self).spec_hashes() == old(self).spec_hashes(),
            r is Ok <==> {
                &&& context@.quality >= old(self).spec_config().min_key_quality
                &&& context@.quality >= old(self).spec_generator().spec_config().min_quality
            },
            r is Ok ==> {
                &&& final(self).spec_status() == ExchangeStatus::ConfirmingKeys
                &&& final(self).spec_key() matches Some(k)
                &&& final(self).spec_key()->0.key == spec_derived_key(
                    old(self).spec_generator().spec_config(),
                    context@,
                )
                &&& final(self).spec_key()->0.quality == context@.quality
                &&& final(self).spec_key()->0.verification_hash == sha256_of(
                    final(self).spec_key()->0.key,
                )
            },
            r is Err ==> {
                &&& final(self).spec_status() == ExchangeStatus::Failed
                &&& final(self).spec_key() == old(self).spec_key()
            },
    {
        if context.quality < self.config.min_key_quality {
            self.status = ExchangeStatus::Failed;
            return Err(
                FskcError::Custom("insufficient context quality for key exchange".to_owned()),
            );
        }
        self.status = ExchangeStatus::GeneratingKeys;
        let key = match self.generator.generate_key(context) {
            Ok(k) => k,
            Err(e) => {
                self.status = ExchangeStatus::Failed;
                return Err(e);
            },
        };
        if key.quality < self.config.min_key_quality {
            self.status = ExchangeStatus::Failed;
            return Err(
                FskcError::Custom("generated key does not meet quality requirements".to_owned()),
            );
        }
        self.derived_key = Some(key);
        self.status = ExchangeStatus::ConfirmingKeys;
        Ok(())
    }

    /// Compute and record the confirmation hash for a round: the hash of
    /// the key bytes followed by the round's little-endian encoding. The
    /// hash is recorded at the round's slot, growing the record as
    /// needed. Fails exactly when no key is held.
    pub fn generate_confirmation(&mut self, round: usize) -> (r: Result<Vec<u8>, FskcError>)
        ensures
            final(self).spec_config() == old(self).spec_config(),
            final(self).spec_generator() == old(self).spec_generator(),
            final(self).spec_status() == old(self).spec_status(),
            final(self).spec_key() == old(self).spec_key(),
            r is Ok <==> (old(self).spec_key() is Some && round < usize::MAX),
            r is Err ==> final(self).spec_hashes() == old(self).spec_hashes(),
            r matches Ok(h) ==> {
                &&& h@ == spec_confirmation_hash(old(self).spec_key()->0.key, round as u64)
                &&& final(self).spec_hashes() == spec_record_at(
                    old(self).spec_hashes(),
                    round as int,
                    h@,
                )
            },
    {
        let key = match &self.derived_key {
            Some(k) => k,
            None => {
                return Err(FskcError::Custom("no key available for confirmation".to_owned()));
            },
        };
        if round >= usize::MAX {
            return Err(FskcError::Custom("round out of range".to_owned()));
        }
        let mut input = super::copy_u8_vec(&key.key);
        let mut round_bytes = u64_le_bytes(round as u64);
        input.append(&mut round_bytes);
        proof {
            assert(input@ == old(self).spec_key()->0.key + le8(round as u64));
        }
        let hash = sha256_digest(input.as_slice());
        let stored = super::copy_u8_vec(&hash);
        let ghost padded_ghost = (if old(self).spec_hashes().len() > round {
            old(self).spec_hashes()
        } else {
            old(self).spec_hashes() + Seq::new(
                (round + 1 - old(self).spec_hashes().len()) as nat,
                |i: int| None::<Seq<u8>>,
            )
        });
        while self.confirmation_hashes.len() <= round
            invariant
                self.config == old(self).config,
                self.generator == old(self).generator,
                self.status == old(self).status,
                self.derived_key == old(self).derived_key,
                round < usize::MAX,
                self.spec_hashes().len() >= old(self).spec_hashes().len(),
                self.spec_hashes().len() <= padded_ghost.len(),
                self.spec_hashes() == padded_ghost.take(self.spec_hashes().len() as int),
                padded_ghost == (if old(self).spec_hashes().len() > round {
                    old(self).spec_hashes()
                } else {
                    old(self).spec_hashes() + Seq::new(
                        (round + 1 - old(self).spec_hashes().len()) as nat,
                        |i: int| None::<Seq<u8>>,
                    )
                }),
                padded_ghost.len() == (if old(self).spec_hashes().len() > round {
                    old(self).spec_hashes().len() as int
                } else {
                    round + 1
                }),
            decreases round + 1 - self.confirmation_hashes@.len(),
        {
            self.confirmation_hashes.push(None);
            proof {
                assert(self.spec_hashes() =~= padded_ghost.take(self.spec_hashes().len() as int));
            }
        }
        proof {
            assert(self.spec_hashes() =~= padded_ghost);
        }
        self.confirmation_hashes.set(round, Some(stored));
        proof {
            assert(self.spec_hashes() =~= spec_record_at(
                old(self).spec_hashes(),
                round as int,
                hash@,
            ));
        }
        Ok(hash)
    }

    /// Compare the peer's hash with the hash recorded for the round.
    /// Fails exactly when no hash is recorded at that round. A failed
    /// machine stays failed; otherwise a match on the final round
    /// completes the exchange, a mismatch fails it, and any other match
    /// leaves the status alone.
    pub fn verify_confirmation(&mut self, round: usize, other_hash: &[u8]) -> (r: Result<
        bool,
        FskcError,
    >)
        ensures
            final(self).spec_config() == old(self).spec_config(),
            final(self).spec_generator() == old(self).spec_generator(),
            final(self).spec_key() == old(self).spec_key(),
            final(self).spec_hashes() == old(self).spec_hashes(),
            r is Ok <==> ((round as int) < old(self).spec_hashes().len() && old(
                self,
            ).spec_hashes()[round as int] is Some),
            r is Err ==> final(self).spec_status() == old(self).spec_status(),
            r matches Ok(m) ==> {
                &&& m == (old(self).spec_hashes()[round as int] == Some(other_hash@))
                &&& final(self).spec_status() == spec_verify_step(
                    old(self).spec_status(),
                    m,
                    round as int,
                    old(self).spec_config().confirmation_rounds as int,
                )
            },
    {
        if round >= self.confirmation_hashes.len() {
            return Err(FskcError::Custom("no confirmation hash for this round".to_owned()));
        }
        let our_hash = match &self.confirmation_hashes[round] {
            Some(h) => h,
            None => {
                return Err(FskcError::Custom("no confirmation hash for this round".to_owned()));
            },
        };
        let matches_peer = bytes_equal(our_hash.as_slice(), other_hash);
        let already_failed = match self.status {
            ExchangeStatus::Failed => true,
            _ => false,
        };
        if already_failed {
        } else if matches_peer && self.config.confirmation_rounds >= 1 && round
            == self.config.confirmation_rounds - 1 {
            self.status = ExchangeStatus::Complete;
        } else if !matches_peer {
            self.status = ExchangeStatus::Failed;
        }
        proof {
            if self.config.confirmation_rounds == 0 {
                assert(round as int != self.spec_config().confirmation_rounds as int - 1);
            }
        }
        Ok(matches_peer)
    }

    /// The current exchange status.
    pub fn status(&self) -> (r: ExchangeStatus)
        ensures
            r == self.spec_status(),
    {
        self.status
    }

    /// The held key, if any.
    pub fn key(&self) -> (r: Option<&DerivedKey>)
        ensures
            self.spec_key() is None ==> r is None,
            self.spec_key() matches Some(k) ==> r is Some && r->0@ == k,
    {
        match &self.derived_key {
            Some(k) => Some(k),
            None => None,
        }
    }

    /// Return to the initial state, clearing the key and the recorded
    /// hashes.
    pub fn reset(&mut self)
        ensures
            final(self).spec_config() == old(self).spec_config(),
            final(self).spec_generator() == old(self).spec_generator(),
            final(self).spec_status() == ExchangeStatus::NotStarted,
            final(self).spec_key() is None,
            final(self).spec_hashes() == Seq::<Option<Seq<u8>>>::empty(),
    {
        self.status = ExchangeStatus::NotStarted;
        self.derived_key = None;
        self.confirmation_hashes.clear();
        proof {
            assert(self.spec_hashes() =~= Seq::<Option<Seq<u8>>>::empty());
        }
    }
}

} // verus!
