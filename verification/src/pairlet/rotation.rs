//! Policy-driven rotation of the active key, with a bounded history of
//! past keys.
use super::context::SharedContext;
use super::exchange::{ExchangeStatus, KeyExchange};
use super::keygen::{DerivedKey, KeyGenerator, KeyModel};
use crate::clock::now_millis;
use crate::FskcError;
use std::collections::VecDeque;
use vstd::prelude::*;

verus! {

/// Status of a rotated key.
#[derive(Debug, Clone, Copy, PartialEq, Eq, Structural)]
pub enum KeyStatus {
    /// The key is currently active.
    Active,
    /// The key expired and is retained for history.
    Expired,
    /// The key was compromised or otherwise invalidated.
    Invalidated,
}

/// The mathematical content of a key record.
pub struct RecordModel {
    pub key: KeyModel,
    pub status: KeyStatus,
    pub activated_at: u64,
    pub deactivated_at: Option<u64>,
    pub deactivation_reason: Option<Seq<char>>,
}

/// A key with its lifecycle metadata.
#[derive(Debug)]
pub struct KeyRecord {
    /// The key material.
    pub key: DerivedKey,
    /// The key's lifecycle status.
    pub status: KeyStatus,
    /// When the key was activated, in milliseconds since the epoch.
    pub activated_at: u64,
    /// When the key was deactivated, if it was.
    pub deactivated_at: Option<u64>,
    /// Why the key was deactivated, if it was.
    pub deactivation_reason: Option<String>,
}

impl View for KeyRecord {
    type V = RecordModel;

    open spec fn view(&self) -> RecordModel {
        RecordModel {
            key: self.key@,
            status: self.status,
            activated_at: self.activated_at,
            deactivated_at: self.deactivated_at,
            deactivation_reason: match self.deactivation_reason {
                Some(s) => Some(s@),
                None => None,
            },
        }
    }
}

/// Configuration for key rotation. Durations are in milliseconds.
#[derive(Debug, Clone, Copy, PartialEq, Eq, Structural)]
pub struct RotationConfig {
    /// Maximum key lifetime.
    pub max_key_lifetime: u64,
    /// Context quality threshold for quality-driven rotation, in
    /// thousandths.
    pub rotation_quality_threshold: u64,
    /// Maximum number of historical keys retained.
    pub max_history_size: usize,
    /// Minimum time between rotations.
    pub min_rotation_interval: u64,
}

impl Default for RotationConfig {
    /// One-hour lifetime, quality threshold 0.9, ten records, five
    /// minutes between rotations.
    fn default() -> (r: Self)
        ensures
            r == (RotationConfig {
                max_key_lifetime: 3_600_000,
                rotation_quality_threshold: 900,
                max_history_size: 10,
                min_rotation_interval: 300_000,
            }),
    {
        RotationConfig {
            max_key_lifetime: 3_600_000,
            rotation_quality_threshold: 900,
            max_history_size: 10,
            min_rotation_interval: 300_000,
        }
    }
}

/// Whether rotation is due at time `now`: there is no active key, or the
/// active key outlived its maximum lifetime, or the context's quality
/// reaches the rotation threshold and the minimum interval since the
/// last rotation has passed.
pub open spec fn spec_needs_rotation(
    active: Option<RecordModel>,
    last_rotation: Option<u64>,
    cfg: RotationConfig,
    ctx_quality: u64,
    now: u64,
) -> bool {
    match active {
        None => true,
        Some(a) => {
            let age = if now >= a.key.generated_at {
                (now - a.key.generated_at) as int
            } else {
                0
            };
            if age > cfg.max_key_lifetime {
                true
            } else if ctx_quality >= cfg.rotation_quality_threshold {
                match last_rotation {
                    Some(l) => {
                        let since = if now >= l {
                            (now - l) as int
                        } else {
                            0
                        };
                        since >= cfg.min_rotation_interval
                    },
                    None => false,
                }
            } else {
                false
            }
        },
    }
}

/// A record demoted out of service at time `now` with the given reason.
pub open spec fn spec_demoted(a: RecordModel, status: KeyStatus, now: u64, reason: Seq<char>) -> RecordModel {
    RecordModel {
        key: a.key,
        status,
        activated_at: a.activated_at,
        deactivated_at: Some(now),
        deactivation_reason: Some(reason),
    }
}

/// The history after a record is pushed to the front and the oldest
/// entries beyond the cap are evicted from the back.
pub open spec fn spec_push_history(history: Seq<RecordModel>, rec: RecordModel, max: int) -> Seq<RecordModel> {
    let extended = seq![rec] + history;
    if extended.len() <= max {
        extended
    } else {
        extended.take(max)
    }
}

/// Owns the active key and a bounded history of past keys; decides when
/// rotation is due and drives a key exchange to perform it.
pub struct KeyRotation {
    config: RotationConfig,
    generator: KeyGenerator,
    active_key: Option<KeyRecord>,
    key_history: VecDeque<KeyRecord>,
    last_rotation: Option<u64>,
}

impl KeyRotation {
    /// The configuration the manager was built with.
    pub closed spec fn spec_config(&self) -> RotationConfig {
        self.config
    }

    /// The generator the manager was built with.
    pub closed spec fn spec_generator(&self) -> KeyGenerator {
        self.generator
    }

    /// The active key record, if any.
    pub closed spec fn spec_active(&self) -> Option<RecordModel> {
        match self.active_key {
            Some(r) => Some(r@),
            None => None,
        }
    }

    /// The historical records, newest first.
    pub closed spec fn spec_history(&self) -> Seq<RecordModel> {
        self.key_history@.map(|i: int, r: KeyRecord| r@)
    }

    /// When the last rotation happened, if one did.
    pub closed spec fn spec_last_rotation(&self) -> Option<u64> {
        self.last_rotation
    }

    /// The bounded-history invariant: never more records than the cap.
    pub open spec fn wf(&self) -> bool {
        self.spec_history().len() <= self.spec_config().max_history_size
    }

    /// Create a new rotation manager with no active key and no history.
    pub fn new(config: RotationConfig, generator: KeyGenerator) -> (r: Self)
        ensures
            r.spec_config() == config,
            r.spec_generator() == generator,
            r.spec_active() is None,
            r.spec_history() == Seq::<RecordModel>::empty(),
            r.spec_last_rotation() is None,
            r.wf(),
    {
        let r = KeyRotation {
            config,
            generator,
            active_key: None,
            key_history: VecDeque::new(),
            last_rotation: None,
        };
        proof {
            assert(r.spec_history() =~= Seq::<RecordModel>::empty());
        }
        r
    }

    /// Whether rotation is due, judged at the time the clock reads now.
    /// With no active key it is due whatever the clock reads.
    pub fn needs_rotation(&self, context: &SharedContext) -> (r: bool)
        ensures
            exists|now: u64|
                r == #[trigger] spec_needs_rotation(
                    self.spec_active(),
                    self.spec_last_rotation(),
                    self.spec_config(),
                    context@.quality,
                    now,
                ),
            self.spec_active() is None ==> r,
    {
        let now = now_millis();
        self.needs_rotation_at(context, now)
    }

    /// Whether rotation is due at the supplied clock reading: no active
    /// key, a key past its lifetime, or a good-quality context once the
    /// minimum interval since the last rotation has passed.
    pub fn needs_rotation_at(&self, context: &SharedContext, now: u64) -> (r: bool)
        ensures
            r == spec_needs_rotation(
                self.spec_active(),
                self.spec_last_rotation(),
                self.spec_config(),
                context@.quality,
                now,
            ),
    {
        match &self.active_key {
            None => true,
            Some(active) => {
                let age: u64 = if now >= active.key.generated_at {
                    now - active.key.generated_at
                } else {
                    0
                };
                if age > self.config.max_key_lifetime {
                    true
                } else if context.quality >= self.config.rotation_quality_threshold {
                    match self.last_rotation {
                        Some(last) => {
                            let since: u64 = if now >= last {
                                now - last
                            } else {
                                0
                            };
                            since >= self.config.min_rotation_interval
                        },
                        None => false,
                    }
                } else {
                    false
                }
            },
        }
    }

    /// Demote the current active record (if any) with the given status
    /// and reason, push it to the front of the history and evict the
    /// oldest records beyond the cap.
    fn retire_active(&mut self, status: KeyStatus, reason: &str, now: u64)
        requires
            old(self).wf(),
        ensures
            final(self).spec_config() == old(self).spec_config(),
            final(self).spec_generator() == old(self).spec_generator(),
            final(self).spec_last_rotation() == old(self).spec_last_rotation(),
            final(self).spec_active() is None,
            old(self).spec_active() matches Some(a) ==> final(self).spec_history()
                == spec_push_history(
                old(self).spec_history(),
                spec_demoted(a, status, now, reason@),
                old(self).spec_config().max_history_size as int,
            ),
            old(self).spec_active() is None ==> final(self).spec_history() == old(
                self,
            ).spec_history(),
            final(self).wf(),
    {
        let current = self.active_key.take();
        match current {
            Some(mut record) => {
                record.status = status;
                record.deactivated_at = Some(now);
                record.deactivation_reason = Some(reason.to_owned());
                self.key_history.push_front(record);
                let ghost extended = seq![
                    spec_demoted(old(self).spec_active()->0, status, now, reason@),
                ] + old(self).spec_history();
                proof {
                    assert(self.spec_history() =~= extended);
                }
                while self.key_history.len() > self.config.max_history_size
                    invariant
                        self.config == old(self).config,
                        self.generator == old(self).generator,
                        self.last_rotation == old(self).last_rotation,
                        self.active_key is None,
                        old(self).spec_active() is Some,
                        extended == seq![
                            spec_demoted(old(self).spec_active()->0, status, now, reason@),
                        ] + old(self).spec_history(),
                        self.spec_history().len() <= extended.len(),
                        self.spec_history().len() as int >= (if extended.len()
                            <= self.spec_config().max_history_size {
                            extended.len() as int
                        } else {
                            self.spec_config().max_history_size as int
                        }),
                        self.spec_history() == extended.take(self.spec_history().len() as int),
                    decreases self.spec_history().len(),
                {
                    self.key_history.pop_back();
                    proof {
                        assert(self.spec_history() =~= extended.take(
                            self.spec_history().len() as int,
                        ));
                    }
                }
                proof {
                    if extended.len() <= self.spec_config().max_history_size {
                        assert(self.spec_history() =~= extended);
                    }
                    assert(self.spec_history() =~= spec_push_history(
                        old(self).spec_history(),
                        spec_demoted(old(self).spec_active()->0, status, now, reason@),
                        old(self).spec_config().max_history_size as int,
                    ));
                }
            },
            None => {},
        }
    }

    /// Drive a full rotation: start the exchange over the context, run
    /// exactly three confirmation rounds against this device's own
    /// hashes (a fixed count, deliberately independent of the exchange's
    /// configured rounds), and require the exchange to complete. On
    /// success the previous active key (if any) moves to the front of
    /// the history as `Expired` with the routine reason, the exchange's
    /// key becomes the active record, and the exchange's first three
    /// slots hold that key's round hashes. On failure this manager is
    /// left unchanged. An exchange configured for more than three
    /// rounds can never complete within the three driven ones, so the
    /// rotation then fails.
    pub fn rotate_key(&mut self, context: &SharedContext, exchange: &mut KeyExchange) -> (r:
        Result<(), FskcError>)
        requires
            old(self).wf(),
        ensures
            final(self).spec_config() == old(self).spec_config(),
            final(self).spec_generator() == old(self).spec_generator(),
            final(self).wf(),
            r is Err ==> *final(self) == *old(self),
            r is Ok ==> ({
                &&& final(exchange).spec_status() == ExchangeStatus::Complete
                &&& final(exchange).spec_key() is Some
                &&& final(exchange).spec_hashes().len() >= 3
                &&& (forall|j: int|
                    0 <= j < 3 ==> #[trigger] final(exchange).spec_hashes()[j] == Some(
                        super::exchange::spec_confirmation_hash(
                            final(exchange).spec_key()->0.key,
                            j as u64,
                        ),
                    ))
                &&& final(self).spec_active() matches Some(na)
                &&& final(self).spec_active()->0.key == final(exchange).spec_key()->0
                &&& final(self).spec_active()->0.status == KeyStatus::Active
                &&& final(self).spec_active()->0.deactivated_at is None
                &&& final(self).spec_last_rotation() is Some
                &&& (old(self).spec_active() matches Some(a) ==> {
                    &&& (old(self).spec_config().max_history_size >= 1 ==> {
                        &&& final(self).spec_history().len() > 0
                        &&& final(self).spec_history()[0].key == a.key
                        &&& final(self).spec_history()[0].status == KeyStatus::Expired
                    })
                    &&& (exists|now: u64|
                        final(self).spec_history() == #[trigger] spec_push_history(
                            old(self).spec_history(),
                            spec_demoted(a, KeyStatus::Expired, now, "Routine rotation"@),
                            old(self).spec_config().max_history_size as int,
                        ))
                })
                &&& (old(self).spec_active() is None ==> final(self).spec_history() == old(
                    self,
                ).spec_history())
            }),
            ({
                &&& 1 <= old(exchange).spec_config().confirmation_rounds <= 3
                &&& context@.quality >= old(exchange).spec_config().min_key_quality
                &&& context@.quality >= old(exchange).spec_generator().spec_config().min_quality
            }) ==> (r is Ok),
            (old(exchange).spec_config().confirmation_rounds == 0 || old(
                exchange,
            ).spec_config().confirmation_rounds > 3) ==> (r is Err),
    {
        match exchange.start_exchange(context) {
            Ok(()) => {},
            Err(e) => {
                return Err(e);
            },
        }
        let ghost rounds_cfg = old(exchange).spec_config().confirmation_rounds as int;
        let mut round: usize = 0;
        while round < 3
            invariant
                self == old(self),
                old(self).wf(),
                round <= 3,
                rounds_cfg == old(exchange).spec_config().confirmation_rounds as int,
                exchange.spec_config() == old(exchange).spec_config(),
                exchange.spec_generator() == old(exchange).spec_generator(),
                exchange.spec_key() is Some,
                exchange.spec_key()->0.verification_hash == crate::crypto::sha256_of(
                    exchange.spec_key()->0.key,
                ),
                exchange.spec_hashes().len() >= round,
                forall|j: int|
                    0 <= j < round ==> #[trigger] exchange.spec_hashes()[j] == Some(
                        super::exchange::spec_confirmation_hash(
                            exchange.spec_key()->0.key,
                            j as u64,
                        ),
                    ),
                exchange.spec_status() == (if 1 <= rounds_cfg && rounds_cfg <= round {
                    ExchangeStatus::Complete
                } else {
                    ExchangeStatus::ConfirmingKeys
                }),
            decreases 3 - round,
        {
            let hash = match exchange.generate_confirmation(round) {
                Ok(h) => h,
                Err(e) => {
                    return Err(e);
                },
            };
            let ok = match exchange.verify_confirmation(round, hash.as_slice()) {
                Ok(m) => m,
                Err(e) => {
                    return Err(e);
                },
            };
            if !ok {
                return Err(FskcError::Custom("key confirmation failed".to_owned()));
            }
            round = round + 1;
        }
        match exchange.status() {
            ExchangeStatus::Complete => {},
            _ => {
                return Err(FskcError::Custom("key exchange failed".to_owned()));
            },
        }
        let new_key = match exchange.key() {
            Some(k) => k.clone(),
            None => {
                return Err(FskcError::Custom("no key available after exchange".to_owned()));
            },
        };
        let now = now_millis();
        let new_record = KeyRecord {
            key: new_key,
            status: KeyStatus::Active,
            activated_at: now,
            deactivated_at: None,
            deactivation_reason: None,
        };
        self.retire_active(KeyStatus::Expired, "Routine rotation", now);
        self.active_key = Some(new_record);
        self.last_rotation = Some(now);
        Ok(())
    }

    /// Demote the active key (if any) to `Invalidated` with the given
    /// reason and move it into the history; afterwards no key is active.
    pub fn invalidate_key(&mut self, reason: &str)
        requires
            old(self).wf(),
        ensures
            final(self).spec_config() == old(self).spec_config(),
            final(self).spec_generator() == old(self).spec_generator(),
            final(self).spec_last_rotation() == old(self).spec_last_rotation(),
            final(self).spec_active() is None,
            final(self).wf(),
            old(self).spec_active() matches Some(a) ==> exists|now: u64|
                final(self).spec_history() == #[trigger] spec_push_history(
                    old(self).spec_history(),
                    spec_demoted(a, KeyStatus::Invalidated, now, reason@),
                    old(self).spec_config().max_history_size as int,
                ),
            old(self).spec_active() is None ==> final(self).spec_history() == old(
                self,
            ).spec_history(),
    {
        let now = now_millis();
        self.retire_active(KeyStatus::Invalidated, reason, now);
    }

    /// Install a recovered record as the active key, demoting the
    /// current active key (if any) to `Expired` with the recovery
    /// reason.
    pub fn recover_key(&mut self, record: KeyRecord) -> (r: Result<(), FskcError>)
        requires
            old(self).wf(),
        ensures
            final(self).spec_config() == old(self).spec_config(),
            final(self).spec_generator() == old(self).spec_generator(),
            final(self).wf(),
            r is Ok,
            final(self).spec_active() == Some(record@),
            final(self).spec_last_rotation() is Some,
            old(self).spec_active() matches Some(a) ==> exists|now: u64|
                final(self).spec_history() == #[trigger] spec_push_history(
                    old(self).spec_history(),
                    spec_demoted(a, KeyStatus::Expired, now, "Key recovery"@),
                    old(self).spec_config().max_history_size as int,
                ),
            old(self).spec_active() is None ==> final(self).spec_history() == old(
                self,
            ).spec_history(),
    {
        let now = now_millis();
        self.retire_active(KeyStatus::Expired, "Key recovery", now);
        self.active_key = Some(record);
        self.last_rotation = Some(now);
        Ok(())
    }

    /// The active key record, if any.
    pub fn active_key(&self) -> (r: Option<&KeyRecord>)
        ensures
            self.spec_active() is None ==> r is None,
            self.spec_active() matches Some(a) ==> r is Some && r->0@ == a,
    {
        match &self.active_key {
            Some(k) => Some(k),
            None => None,
        }
    }

    /// The key history, newest first.
    pub fn key_history(&self) -> (r: &VecDeque<KeyRecord>)
        ensures
            r@.map(|i: int, rec: KeyRecord| rec@) == self.spec_history(),
    {
        &self.key_history
    }

    /// Drop every historical record.
    pub fn clear_history(&mut self)
        ensures
            final(self).spec_config() == old(self).spec_config(),
            final(self).spec_generator() == old(self).spec_generator(),
            final(self).spec_active() == old(self).spec_active(),
            final(self).spec_last_rotation() == old(self).spec_last_rotation(),
            final(self).spec_history() == Seq::<RecordModel>::empty(),
            final(self).wf(),
    {
        self.key_history.clear();
        proof {
            assert(self.spec_history() =~= Seq::<RecordModel>::empty());
        }
    }
}

} // verus!
