//! Attempt-limited key recovery: re-deriving a key from a historical
//! context when the active key is lost, with a fail-closed lockout after
//! too many failures.
use super::context::{ContextModel, SharedContext};
use super::exchange::{ExchangeStatus, KeyExchange};
use super::keygen::{spec_derived_key, DerivedKey, KeyGenerator, KeyModel};
use super::rotation::{KeyRecord, KeyRotation, KeyStatus};
use crate::clock::now_millis;
use crate::FskcError;
use vstd::prelude::*;

verus! {

/// Status of a recovery attempt.
#[derive(Debug, Clone, Copy, PartialEq, Eq, Structural)]
pub enum RecoveryStatus {
    /// Initial state.
    NotStarted,
    /// Verifying the historical context.
    VerifyingContext,
    /// Generating the recovery key.
    GeneratingKeys,
    /// Confirming the recovery key.
    ConfirmingKeys,
    /// Recovery complete.
    Complete,
    /// Recovery failed.
    Failed,
}

/// Configuration for key recovery. Durations are in milliseconds.
#[derive(Debug, Clone, Copy, PartialEq, Eq, Structural)]
pub struct RecoveryConfig {
    /// Maximum age of a recoverable context.
    pub max_context_age: u64,
    /// Minimum required context quality for recovery, in thousandths.
    pub min_recovery_quality: u64,
    /// Number of confirmation rounds required.
    pub confirmation_rounds: usize,
    /// Maximum recovery attempts before lockout.
    pub max_recovery_attempts: usize,
}

impl Default for RecoveryConfig {
    /// One-day context age, quality at least 0.9, five rounds, three
    /// attempts.
    fn default() -> (r: Self)
        ensures
            r == (RecoveryConfig {
                max_context_age: 86_400_000,
                min_recovery_quality: 900,
                confirmation_rounds: 5,
                max_recovery_attempts: 3,
            }),
    {
        RecoveryConfig {
            max_context_age: 86_400_000,
            min_recovery_quality: 900,
            confirmation_rounds: 5,
            max_recovery_attempts: 3,
        }
    }
}

/// What `start_recovery` does at clock reading `now`, given the state
/// before and after the call: a locked-out manager refuses without any
/// change; a clock before the context's establishment refuses without
/// any change; a stale or low-quality context fails the machine and
/// spends an attempt; otherwise the recovery begins.
pub open spec fn start_recovery_post(
    cfg: RecoveryConfig,
    before_attempts: usize,
    before_status: RecoveryStatus,
    before_started: Option<u64>,
    after_attempts: usize,
    after_status: RecoveryStatus,
    after_started: Option<u64>,
    ctx: ContextModel,
    r: Result<(), FskcError>,
    now: u64,
) -> bool {
    if before_attempts >= cfg.max_recovery_attempts {
        &&& r is Err
        &&& after_attempts == before_attempts
        &&& after_status == before_status
        &&& after_started == before_started
    } else if now < ctx.established_at {
        &&& r is Err
        &&& after_attempts == before_attempts
        &&& after_status == before_status
        &&& after_started == before_started
    } else if now - ctx.established_at > cfg.max_context_age {
        &&& r is Err
        &&& after_attempts == before_attempts + 1
        &&& after_status == RecoveryStatus::Failed
        &&& after_started == before_started
    } else if ctx.quality < cfg.min_recovery_quality {
        &&& r is Err
        &&& after_attempts == before_attempts + 1
        &&& after_status == RecoveryStatus::Failed
        &&& after_started == before_started
    } else {
        &&& r is Ok
        &&& after_attempts == before_attempts
        &&& after_status == RecoveryStatus::VerifyingContext
        &&& after_started == Some(now)
    }
}

/// `start_recovery_post` at some clock reading.
pub open spec fn start_recovery_post_some_time(
    cfg: RecoveryConfig,
    before_attempts: usize,
    before_status: RecoveryStatus,
    before_started: Option<u64>,
    after_attempts: usize,
    after_status: RecoveryStatus,
    after_started: Option<u64>,
    ctx: ContextModel,
    r: Result<(), FskcError>,
) -> bool {
    exists|now: u64|
        #[trigger] start_recovery_post(
            cfg,
            before_attempts,
            before_status,
            before_started,
            after_attempts,
            after_status,
            after_started,
            ctx,
            r,
            now,
        )
}

/// Manages key recovery operations.
pub struct KeyRecovery {
    config: RecoveryConfig,
    generator: KeyGenerator,
    status: RecoveryStatus,
    attempts: usize,
    recovery_started: Option<u64>,
    backup_key: Option<DerivedKey>,
}

impl KeyRecovery {
    /// The configuration the manager was built with.
    pub closed spec fn spec_config(&self) -> RecoveryConfig {
        self.config
    }

    /// The generator the manager derives keys with.
    pub closed spec fn spec_generator(&self) -> KeyGenerator {
        self.generator
    }

    /// The current status.
    pub closed spec fn spec_status(&self) -> RecoveryStatus {
        self.status
    }

    /// How many recovery attempts have failed so far.
    pub closed spec fn spec_attempts(&self) -> usize {
        self.attempts
    }

    /// When the running recovery started, if one is running.
    pub closed spec fn spec_started(&self) -> Option<u64> {
        self.recovery_started
    }

    /// The backup key, if one was generated.
    pub closed spec fn spec_backup(&self) -> Option<KeyModel> {
        match self.backup_key {
            Some(k) => Some(k@),
            None => None,
        }
    }

    /// Whether recovery is locked out: the attempt counter has reached
    /// the configured maximum.
    pub open spec fn spec_locked_out(&self) -> bool {
        self.spec_attempts() >= self.spec_config().max_recovery_attempts
    }

    /// The attempt counter never passes the configured maximum, and a
    /// recovery can only be in flight while attempts remain.
    pub open spec fn wf(&self) -> bool {
        &&& self.spec_attempts() <= self.spec_config().max_recovery_attempts
        &&& (match self.spec_status() {
            RecoveryStatus::VerifyingContext => self.spec_attempts()
                < self.spec_config().max_recovery_attempts,
            RecoveryStatus::GeneratingKeys => self.spec_attempts()
                < self.spec_config().max_recovery_attempts,
            RecoveryStatus::ConfirmingKeys => self.spec_attempts()
                < self.spec_config().max_recovery_attempts,
            _ => true,
        })
    }

    /// Create a new key recovery manager.
    pub fn new(config: RecoveryConfig, generator: KeyGenerator) -> (r: Self)
        ensures
            r.spec_config() == config,
            r.spec_generator() == generator,
            r.spec_status() == RecoveryStatus::NotStarted,
            r.spec_attempts() == 0,
            r.spec_started() is None,
            r.spec_backup() is None,
            r.wf(),
    {
        KeyRecovery {
            config,
            generator,
            status: RecoveryStatus::NotStarted,
            attempts: 0,
            recovery_started: None,
            backup_key: None,
        }
    }

    /// Begin a recovery over a context, judged at the time the clock
    /// reads now.
    pub fn start_recovery(&mut self, context: &SharedContext) -> (r: Result<(), FskcError>)
        requires
            old(self).wf(),
        ensures
            final(self).spec_config() == old(self).spec_config(),
            final(self).spec_generator() == old(self).spec_generator(),
            final(self).spec_backup() == old(self).spec_backup(),
            final(self).wf(),
            start_recovery_post_some_time(
                old(self).spec_config(),
                old(self).spec_attempts(),
                old(self).spec_status(),
                old(self).spec_started(),
                final(self).spec_attempts(),
                final(self).spec_status(),
                final(self).spec_started(),
                context@,
                r,
            ),
            old(self).spec_locked_out() ==> (r is Err) && *final(self) == *old(self),
            r is Ok ==> {
                &&& final(self).spec_status() == RecoveryStatus::VerifyingContext
                &&& final(self).spec_attempts() == old(self).spec_attempts()
                &&& context@.quality >= old(self).spec_config().min_recovery_quality
            },
            context@.quality < old(self).spec_config().min_recovery_quality ==> (r is Err),
    {
        let now = now_millis();
        let r = self.start_recovery_at(context, now);
        proof {
            assert(start_recovery_post(
                old(self).spec_config(),
                old(self).spec_attempts(),
                old(self).spec_status(),
                old(self).spec_started(),
                self.spec_attempts(),
                self.spec_status(),
                self.spec_started(),
                context@,
                r,
                now,
            ));
        }
        r
    }

    /// Begin a recovery over a context, with the clock reading supplied
    /// by the caller. A locked-out manager refuses immediately, changing
    /// nothing — in particular not the attempt counter. A context too
    /// old or of insufficient quality fails the machine and spends one
    /// attempt. Otherwise the machine moves to `VerifyingContext`.
    pub fn start_recovery_at(&mut self, context: &SharedContext, now: u64) -> (r: Result<
        (),
        FskcError,
    >)
        requires
            old(self).wf(),
        ensures
            final(self).spec_config() == old(self).spec_config(),
            final(self).spec_generator() == old(self).spec_generator(),
            final(self).spec_backup() == old(self).spec_backup(),
            final(self).wf(),
            start_recovery_post(
                old(self).spec_config(),
                old(self).spec_attempts(),
                old(self).spec_status(),
                old(self).spec_started(),
                final(self).spec_attempts(),
                final(self).spec_status(),
                final(self).spec_started(),
                context@,
                r,
                now,
            ),
            old(self).spec_locked_out() ==> (r is Err) && *final(self) == *old(self),
    {
        if self.attempts >= self.config.max_recovery_attempts {
            return Err(FskcError::Custom("maximum recovery attempts exceeded".to_owned()));
        }
        if now < context.established_at {
            return Err(FskcError::Custom("clock reads before the context".to_owned()));
        }
        if now - context.established_at > self.config.max_context_age {
            self.status = RecoveryStatus::Failed;
            self.attempts = self.attempts + 1;
            return Err(FskcError::Custom("context too old for recovery".to_owned()));
        }
        if context.quality < self.config.min_recovery_quality {
            self.status = RecoveryStatus::Failed;
            self.attempts = self.attempts + 1;
            return Err(FskcError::Custom("insufficient context quality for recovery".to_owned()));
        }
        self.status = RecoveryStatus::VerifyingContext;
        self.recovery_started = Some(now);
        Ok(())
    }

    /// Derive the recovery key from the context. Requires the machine to
    /// be in `VerifyingContext`; on success the key is stored as the
    /// backup key and the machine moves to `ConfirmingKeys`.
    pub fn generate_recovery_key(&mut self, context: &SharedContext) -> (r: Result<
        DerivedKey,
        FskcError,
    >)
        requires
            old(self).wf(),
        ensures
            final(self).spec_config() == old(self).spec_config(),
            final(self).spec_generator() == old(self).spec_generator(),
            final(self).spec_attempts() == old(self).spec_attempts(),
            final(self).spec_started() == old(self).spec_started(),
            final(self).wf(),
            old(self).spec_status() != RecoveryStatus::VerifyingContext ==> ((r is Err)
                && *final(self) == *old(self)),
            r is Ok <==> (old(self).spec_status() == RecoveryStatus::VerifyingContext && context@.quality
                >= old(self).spec_generator().spec_config().min_quality),
            r matches Ok(k) ==> ({
                &&& k@.key == spec_derived_key(old(self).spec_generator().spec_config(), context@)
                &&& final(self).spec_backup() == Some(k@)
                &&& final(self).spec_status() == RecoveryStatus::ConfirmingKeys
            }),
            (r is Err) && old(self).spec_status() == RecoveryStatus::VerifyingContext ==> ({
                &&& final(self).spec_status() == RecoveryStatus::GeneratingKeys
                &&& final(self).spec_backup() == old(self).spec_backup()
            }),
    {
        match self.status {
            RecoveryStatus::VerifyingContext => {},
            _ => {
                return Err(FskcError::Custom("recovery not properly initialized".to_owned()));
            },
        }
        self.status = RecoveryStatus::GeneratingKeys;
        let key = match self.generator.generate_key(context) {
            Ok(k) => k,
            Err(e) => {
                return Err(e);
            },
        };
        let stored = key.clone();
        self.backup_key = Some(stored);
        self.status = RecoveryStatus::ConfirmingKeys;
        Ok(key)
    }

    /// Verify the recovery against a key exchange and install the
    /// recovered key through the rotation manager. Requires this machine
    /// and the exchange both to be in their confirming states; one
    /// confirmation round is generated and checked against this device's
    /// own record, so a confirming exchange that holds a key always
    /// passes and the exchange's key becomes the active record while
    /// this machine completes. A confirming exchange without a key fails
    /// the call and changes nothing; the defensive mismatch branch,
    /// which would fail the machine and spend one attempt, cannot fire
    /// because the round's slot was written immediately before.
    pub fn verify_recovery(&mut self, exchange: &mut KeyExchange, rotation: &mut KeyRotation) -> (r:
        Result<(), FskcError>)
        requires
            old(self).wf(),
            old(rotation).wf(),
        ensures
            final(self).spec_config() == old(self).spec_config(),
            final(self).spec_generator() == old(self).spec_generator(),
            final(self).spec_backup() == old(self).spec_backup(),
            final(self).spec_started() == old(self).spec_started(),
            final(self).wf(),
            final(rotation).wf(),
            old(self).spec_status() != RecoveryStatus::ConfirmingKeys ==> ({
                &&& r is Err
                &&& *final(self) == *old(self)
                &&& *final(exchange) == *old(exchange)
                &&& *final(rotation) == *old(rotation)
            }),
            old(self).spec_status() == RecoveryStatus::ConfirmingKeys && old(
                exchange,
            ).spec_status() != ExchangeStatus::ConfirmingKeys ==> ({
                &&& r is Err
                &&& *final(self) == *old(self)
                &&& *final(exchange) == *old(exchange)
                &&& *final(rotation) == *old(rotation)
            }),
            r is Ok ==> ({
                &&& final(self).spec_status() == RecoveryStatus::Complete
                &&& final(self).spec_attempts() == old(self).spec_attempts()
                &&& old(exchange).spec_key() is Some
                &&& final(rotation).spec_active() matches Some(a)
                &&& final(rotation).spec_active()->0.key == old(exchange).spec_key()->0
                &&& final(rotation).spec_active()->0.status == KeyStatus::Active
            }),
            ({
                &&& old(self).spec_status() == RecoveryStatus::ConfirmingKeys
                &&& old(exchange).spec_status() == ExchangeStatus::ConfirmingKeys
                &&& old(exchange).spec_key() is Some
            }) ==> (r is Ok),
            ({
                &&& old(self).spec_status() == RecoveryStatus::ConfirmingKeys
                &&& old(exchange).spec_status() == ExchangeStatus::ConfirmingKeys
                &&& old(exchange).spec_key() is None
            }) ==> ({
                &&& r is Err
                &&& *final(self) == *old(self)
                &&& *final(rotation) == *old(rotation)
                &&& final(exchange).spec_status() == old(exchange).spec_status()
                &&& final(exchange).spec_key() == old(exchange).spec_key()
                &&& final(exchange).spec_hashes() == old(exchange).spec_hashes()
            }),
    {
        match self.status {
            RecoveryStatus::ConfirmingKeys => {},
            _ => {
                return Err(FskcError::Custom("recovery not ready for verification".to_owned()));
            },
        }
        match exchange.status() {
            ExchangeStatus::ConfirmingKeys => {},
            _ => {
                return Err(
                    FskcError::Custom("key exchange not properly initialized".to_owned()),
                );
            },
        }
        let hash = match exchange.generate_confirmation(0) {
            Ok(h) => h,
            Err(e) => {
                return Err(e);
            },
        };
        let ok = match exchange.verify_confirmation(0, hash.as_slice()) {
            Ok(m) => m,
            Err(e) => {
                return Err(e);
            },
        };
        if !ok {
            self.status = RecoveryStatus::Failed;
            self.attempts = self.attempts + 1;
            return Err(FskcError::Custom("recovery verification failed".to_owned()));
        }
        let key = match exchange.key() {
            Some(k) => k.clone(),
            None => {
                self.status = RecoveryStatus::Failed;
                self.attempts = self.attempts + 1;
                return Err(FskcError::Custom("no key available after verification".to_owned()));
            },
        };
        let record = KeyRecord {
            key,
            status: KeyStatus::Active,
            activated_at: now_millis(),
            deactivated_at: None,
            deactivation_reason: None,
        };
        match rotation.recover_key(record) {
            Ok(()) => {},
            Err(e) => {
                return Err(e);
            },
        }
        self.status = RecoveryStatus::Complete;
        Ok(())
    }

    /// The current recovery status.
    pub fn status(&self) -> (r: RecoveryStatus)
        ensures
            r == self.spec_status(),
    {
        self.status
    }

    /// How many recovery attempts have failed.
    pub fn attempts(&self) -> (r: usize)
        ensures
            r == self.spec_attempts(),
    {
        self.attempts
    }

    /// Whether recovery is locked out.
    pub fn is_locked_out(&self) -> (r: bool)
        ensures
            r == self.spec_locked_out(),
    {
        self.attempts >= self.config.max_recovery_attempts
    }

    /// The backup key, if one was generated.
    pub fn backup_key(&self) -> (r: Option<&DerivedKey>)
        ensures
            self.spec_backup() is None ==> r is None,
            self.spec_backup() matches Some(k) ==> r is Some && r->0@ == k,
    {
        match &self.backup_key {
            Some(k) => Some(k),
            None => None,
        }
    }

    /// Clear the machine's state and backup key, keeping the attempt
    /// counter.
    pub fn reset(&mut self)
        requires
            old(self).wf(),
        ensures
            final(self).spec_config() == old(self).spec_config(),
            final(self).spec_generator() == old(self).spec_generator(),
            final(self).spec_attempts() == old(self).spec_attempts(),
            final(self).spec_status() == RecoveryStatus::NotStarted,
            final(self).spec_started() is None,
            final(self).spec_backup() is None,
            final(self).wf(),
    {
        self.status = RecoveryStatus::NotStarted;
        self.recovery_started = None;
        self.backup_key = None;
    }
}

} // verus!
