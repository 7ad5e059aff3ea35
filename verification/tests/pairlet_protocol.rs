use fskc::clock::now_millis;
use fskc::pairlet::{
    ContextConfig, ContextManager, CoPresenceConfig, CoPresenceValidator, EntropyQuality,
    ExchangeConfig, ExchangeStatus, KeyExchange, KeyGenConfig, KeyGenerator, KeyRecovery,
    KeyRotation, MeasurementWindow, RecoveryConfig, RecoveryStatus, RotationConfig, Sensor,
    SensorConfig, SharedContext,
};
use fskc::FskcError;

fn quality(shannon: u32, snr: u32, consistency: u32) -> EntropyQuality {
    EntropyQuality {
        shannon_entropy: shannon,
        sample_rate: 100,
        signal_to_noise: snr,
        temporal_consistency: consistency,
    }
}

fn window(start_time: u64, measurements: Vec<u32>, q: EntropyQuality) -> MeasurementWindow {
    MeasurementWindow { start_time, duration: 1000, measurements, quality: q }
}

fn test_context(ctx_quality: u64) -> SharedContext {
    SharedContext {
        time_window: 3000,
        measurements: vec![window(
            now_millis(),
            vec![100, 200, 300],
            quality(ctx_quality as u32, 10_000, 1000),
        )],
        quality: ctx_quality,
        established_at: now_millis(),
    }
}

/// A deterministic sensor for driving collection in tests.
struct TestSensor {
    step: u8,
}

impl Sensor for TestSensor {
    fn check_hardware(&self) -> bool {
        true
    }

    fn start(&mut self, _config: &SensorConfig) -> Result<(), FskcError> {
        Ok(())
    }

    fn stop(&mut self) -> Result<(), FskcError> {
        Ok(())
    }

    fn quality(&self) -> Result<EntropyQuality, FskcError> {
        Ok(quality(900, 10_000, 1000))
    }

    fn fill_entropy(&mut self, buffer: &mut Vec<u8>) -> Result<(), FskcError> {
        for (i, b) in buffer.iter_mut().enumerate() {
            *b = (i as u8).wrapping_mul(self.step).wrapping_add(self.step);
        }
        self.step = self.step.wrapping_add(1);
        Ok(())
    }

    fn description(&self) -> String {
        "test sensor".to_string()
    }
}

#[test]
fn test_copresence_validation() {
    let config = CoPresenceConfig {
        min_correlation: 800,
        max_time_diff: 100,
        min_proximity: 900,
        window_size: 1000,
    };
    let mut validator = CoPresenceValidator::new(config);

    // Drive a collection cycle over simulated sensors.
    let mut sensors = vec![TestSensor { step: 1 }, TestSensor { step: 2 }];
    validator.start_collection(&mut sensors).unwrap();

    let now = now_millis();
    let window1 = window(
        now,
        vec![1000, 2000, 3000, 4000, 5000],
        quality(1000, 10_000, 1000),
    );
    let window2 = window(
        now,
        vec![1100, 2100, 3100, 4100, 5100],
        quality(1000, 9_800, 1000),
    );

    let correlation = validator.calculate_correlation(&window1, &window2);
    assert!(correlation > 900, "High correlation expected");

    let sync = validator.calculate_sync_score(&window1, &window2);
    assert!(sync > 900, "High sync score expected");

    let proximity = validator.calculate_proximity(&window1, &window2);
    assert!(proximity > 900, "High proximity expected");

    assert!(validator.validate_copresence(&window1, &window2));

    validator.stop_collection(&mut sensors).unwrap();
}

#[test]
fn test_context_establishment() {
    let config = ContextConfig { min_quality: 800, required_windows: 3, max_age: 60_000 };
    let mut manager1 = ContextManager::new(
        config,
        CoPresenceValidator::new(CoPresenceConfig {
            min_correlation: 800,
            max_time_diff: 100,
            min_proximity: 900,
            window_size: 1000,
        }),
    );
    let mut manager2 = ContextManager::new(
        config,
        CoPresenceValidator::new(CoPresenceConfig {
            min_correlation: 800,
            max_time_diff: 100,
            min_proximity: 900,
            window_size: 1000,
        }),
    );

    let now = now_millis();
    for i in 0..3u32 {
        let w1 = window(
            now,
            vec![1000 + i * 200, 2000 + i * 200, 3000 + i * 200],
            quality(1000, 10_000, 1000),
        );
        let w2 = window(
            now,
            vec![1100 + i * 200, 2100 + i * 200, 3100 + i * 200],
            quality(1000, 9_800, 1000),
        );
        manager1.validator_mut().add_test_window(w1);
        manager2.validator_mut().add_test_window(w2);
    }

    let other_windows = manager2.validator().recent_windows(3);

    let context = manager1.establish_context(&other_windows).unwrap();
    assert!(context.is_some(), "Context establishment should succeed");

    let context = context.unwrap();
    assert!(context.quality >= 800, "Context quality should be high");
    assert!(manager1.is_context_valid(&context), "Context should be valid");
}

#[test]
fn test_key_generation() {
    let context = SharedContext {
        time_window: 3000,
        measurements: vec![window(
            now_millis(),
            vec![100, 200, 300, 400, 500],
            quality(900, 10_000, 1000),
        )],
        quality: 950,
        established_at: now_millis(),
    };

    let generator = KeyGenerator::new(KeyGenConfig::default());
    let key = generator.generate_key(&context).unwrap();

    assert_eq!(key.key.len(), 32);
    assert!(key.quality >= 800);
    assert!(!key.verification_hash.is_empty());

    assert!(generator.verify_key(&key, &key.verification_hash));
}

#[test]
fn test_key_verification() {
    let config = KeyGenConfig { key_length: 16, min_quality: 700, hash_iterations: 1000 };
    let generator = KeyGenerator::new(config);

    let context = SharedContext {
        time_window: 1000,
        measurements: vec![window(
            now_millis(),
            vec![500, 600, 700],
            quality(800, 8_000, 900),
        )],
        quality: 850,
        established_at: now_millis(),
    };

    let key = generator.generate_key(&context).unwrap();
    assert!(generator.verify_key(&key, &key.verification_hash));

    let mut bad_key = key.clone();
    bad_key.key[0] ^= 1;
    assert!(!generator.verify_key(&bad_key, &key.verification_hash));
}

#[test]
fn test_key_exchange() {
    let context = test_context(950);

    let config = ExchangeConfig::default();
    let mut exchange1 = KeyExchange::new(config, KeyGenerator::new(KeyGenConfig::default()));
    let mut exchange2 = KeyExchange::new(config, KeyGenerator::new(KeyGenConfig::default()));

    exchange1.start_exchange(&context).unwrap();
    exchange2.start_exchange(&context).unwrap();

    assert_eq!(exchange1.status(), ExchangeStatus::ConfirmingKeys);
    assert_eq!(exchange2.status(), ExchangeStatus::ConfirmingKeys);

    for round in 0..3 {
        let hash1 = exchange1.generate_confirmation(round).unwrap();
        let hash2 = exchange2.generate_confirmation(round).unwrap();

        assert!(exchange1.verify_confirmation(round, &hash2).unwrap());
        assert!(exchange2.verify_confirmation(round, &hash1).unwrap());
    }

    assert_eq!(exchange1.status(), ExchangeStatus::Complete);
    assert_eq!(exchange2.status(), ExchangeStatus::Complete);

    let key1 = exchange1.key().unwrap();
    let key2 = exchange2.key().unwrap();
    assert_eq!(key1.key, key2.key);
    assert_eq!(key1.verification_hash, key2.verification_hash);
}

#[test]
fn test_failed_exchange() {
    let context = test_context(300);

    let mut exchange = KeyExchange::new(
        ExchangeConfig::default(),
        KeyGenerator::new(KeyGenConfig::default()),
    );

    let result = exchange.start_exchange(&context);
    assert!(result.is_err());
    assert_eq!(exchange.status(), ExchangeStatus::Failed);
}

#[test]
fn test_key_rotation() {
    let config = RotationConfig {
        max_key_lifetime: 0,
        rotation_quality_threshold: 800,
        max_history_size: 2,
        min_rotation_interval: 0,
    };

    let mut rotation = KeyRotation::new(config, KeyGenerator::new(KeyGenConfig::default()));

    let context = test_context(900);
    let mut exchange = KeyExchange::new(
        ExchangeConfig::default(),
        KeyGenerator::new(KeyGenConfig::default()),
    );

    // Initial rotation: due because no key is active.
    assert!(rotation.needs_rotation(&context));
    rotation.rotate_key(&context, &mut exchange).unwrap();
    assert!(rotation.active_key().is_some());
    assert_eq!(rotation.key_history().len(), 0);

    // Second rotation: due via the quality path.
    assert!(rotation.needs_rotation(&context));
    rotation.rotate_key(&context, &mut exchange).unwrap();
    assert!(rotation.active_key().is_some());
    assert_eq!(rotation.key_history().len(), 1);
    assert_eq!(rotation.key_history()[0].status, fskc::pairlet::KeyStatus::Expired);
}

#[test]
fn test_key_invalidation() {
    let mut rotation = KeyRotation::new(
        RotationConfig::default(),
        KeyGenerator::new(KeyGenConfig::default()),
    );

    let context = test_context(900);
    let mut exchange = KeyExchange::new(
        ExchangeConfig::default(),
        KeyGenerator::new(KeyGenConfig::default()),
    );

    rotation.rotate_key(&context, &mut exchange).unwrap();
    assert!(rotation.active_key().is_some());

    rotation.invalidate_key("Security breach");
    assert!(rotation.active_key().is_none());
    assert_eq!(rotation.key_history().len(), 1);
    assert_eq!(rotation.key_history()[0].status, fskc::pairlet::KeyStatus::Invalidated);
    assert_eq!(
        rotation.key_history()[0].deactivation_reason,
        Some("Security breach".into())
    );
}

#[test]
fn test_key_recovery() {
    let mut recovery = KeyRecovery::new(
        RecoveryConfig::default(),
        KeyGenerator::new(KeyGenConfig::default()),
    );

    let context = test_context(950);

    recovery.start_recovery(&context).unwrap();
    assert_eq!(recovery.status(), RecoveryStatus::VerifyingContext);

    let _key = recovery.generate_recovery_key(&context).unwrap();
    assert_eq!(recovery.status(), RecoveryStatus::ConfirmingKeys);
    assert!(recovery.backup_key().is_some());
}

#[test]
fn test_recovery_lockout() {
    let mut recovery = KeyRecovery::new(
        RecoveryConfig { max_recovery_attempts: 2, ..RecoveryConfig::default() },
        KeyGenerator::new(KeyGenConfig::default()),
    );

    let context = test_context(700);

    assert!(recovery.start_recovery(&context).is_err());
    assert_eq!(recovery.attempts(), 1);
    assert!(!recovery.is_locked_out());

    assert!(recovery.start_recovery(&context).is_err());
    assert_eq!(recovery.attempts(), 2);
    assert!(recovery.is_locked_out());

    // Locked out: a further call fails without spending another attempt.
    assert!(recovery.start_recovery(&context).is_err());
    assert_eq!(recovery.attempts(), 2);
    assert_eq!(recovery.status(), RecoveryStatus::Failed);
}

#[test]
fn correlation_of_identical_windows_is_full() {
    let validator = CoPresenceValidator::new(CoPresenceConfig {
        min_correlation: 800,
        max_time_diff: 100,
        min_proximity: 900,
        window_size: 1000,
    });
    let w = window(now_millis(), vec![100, 900, 300, 700], quality(1000, 10_000, 1000));
    assert_eq!(validator.calculate_correlation(&w, &w), 1000);
}

#[test]
fn correlation_and_proximity_are_symmetric() {
    let validator = CoPresenceValidator::new(CoPresenceConfig {
        min_correlation: 800,
        max_time_diff: 100,
        min_proximity: 900,
        window_size: 1000,
    });
    let now = now_millis();
    let a = window(now, vec![100, 900, 300, 700], quality(1000, 10_000, 1000));
    let b = window(now, vec![250, 400, 800, 650], quality(1000, 7_400, 1000));
    assert_eq!(
        validator.calculate_correlation(&a, &b),
        validator.calculate_correlation(&b, &a)
    );
    assert_eq!(
        validator.calculate_proximity(&a, &b),
        validator.calculate_proximity(&b, &a)
    );
}

#[test]
fn key_generation_is_deterministic() {
    let context = test_context(950);
    let generator = KeyGenerator::new(KeyGenConfig { key_length: 32, min_quality: 800, hash_iterations: 500 });
    let key1 = generator.generate_key(&context).unwrap();
    let key2 = generator.generate_key(&context).unwrap();
    assert_eq!(key1.key, key2.key);
    assert_eq!(key1.verification_hash, key2.verification_hash);
}

#[test]
fn mismatch_fails_exchange_until_reset() {
    let context1 = test_context(950);
    let mut context2 = test_context(950);
    context2.measurements[0].measurements = vec![999, 888, 777];

    let config = ExchangeConfig::default();
    let mut exchange1 = KeyExchange::new(config, KeyGenerator::new(KeyGenConfig::default()));
    let mut exchange2 = KeyExchange::new(config, KeyGenerator::new(KeyGenConfig::default()));

    exchange1.start_exchange(&context1).unwrap();
    exchange2.start_exchange(&context2).unwrap();

    let _hash1 = exchange1.generate_confirmation(0).unwrap();
    let hash2 = exchange2.generate_confirmation(0).unwrap();

    // Different contexts derive different keys, so the peer hash fails.
    assert!(!exchange1.verify_confirmation(0, &hash2).unwrap());
    assert_eq!(exchange1.status(), ExchangeStatus::Failed);

    // The machine stays failed until an explicit reset.
    assert_eq!(exchange1.status(), ExchangeStatus::Failed);
    exchange1.reset();
    assert_eq!(exchange1.status(), ExchangeStatus::NotStarted);
    assert!(exchange1.key().is_none());
}

#[test]
fn history_never_exceeds_cap() {
    let config = RotationConfig {
        max_key_lifetime: 0,
        rotation_quality_threshold: 800,
        max_history_size: 1,
        min_rotation_interval: 0,
    };
    let mut rotation = KeyRotation::new(config, KeyGenerator::new(KeyGenConfig::default()));
    let context = test_context(900);
    let mut exchange = KeyExchange::new(
        ExchangeConfig::default(),
        KeyGenerator::new(KeyGenConfig::default()),
    );

    for _ in 0..4 {
        rotation.rotate_key(&context, &mut exchange).unwrap();
        assert!(rotation.key_history().len() <= 1);
    }
    assert_eq!(rotation.key_history().len(), 1);
    assert_eq!(rotation.key_history()[0].status, fskc::pairlet::KeyStatus::Expired);
}

#[test]
fn lifetime_expiry_alone_forces_rotation() {
    // A key stamped at time zero, a one-second lifetime, a huge minimum
    // interval and a low-quality context: judged at fixed clock
    // readings, only the expiry path can make rotation due.
    let config = RotationConfig {
        max_key_lifetime: 1000,
        rotation_quality_threshold: 800,
        max_history_size: 4,
        min_rotation_interval: 3_600_000,
    };
    let mut rotation = KeyRotation::new(config, KeyGenerator::new(KeyGenConfig::default()));
    let old_key = fskc::pairlet::DerivedKey {
        key: vec![7u8; 32],
        generated_at: 0,
        quality: 900,
        verification_hash: vec![0u8; 32],
    };
    let record = fskc::pairlet::KeyRecord {
        key: old_key,
        status: fskc::pairlet::KeyStatus::Active,
        activated_at: 0,
        deactivated_at: None,
        deactivation_reason: None,
    };
    rotation.recover_key(record).unwrap();

    let weak_context = test_context(300);
    // At the lifetime boundary the key is not yet expired.
    assert!(!rotation.needs_rotation_at(&weak_context, 1000));
    // One millisecond past the lifetime, expiry alone makes it due.
    assert!(rotation.needs_rotation_at(&weak_context, 1001));
}

#[test]
fn context_validity_judged_at_fixed_times() {
    let config = ContextConfig { min_quality: 800, required_windows: 3, max_age: 60_000 };
    let manager = ContextManager::new(
        config,
        CoPresenceValidator::new(CoPresenceConfig {
            min_correlation: 800,
            max_time_diff: 100,
            min_proximity: 900,
            window_size: 1000,
        }),
    );
    let mut context = test_context(900);
    context.established_at = 1000;

    assert!(manager.context_valid_at(&context, 61_000));
    assert!(!manager.context_valid_at(&context, 61_001));

    context.quality = 300;
    assert!(!manager.context_valid_at(&context, 2000));
}

#[test]
fn recovery_judged_at_fixed_times() {
    let config = RecoveryConfig {
        max_context_age: 100,
        min_recovery_quality: 800,
        confirmation_rounds: 5,
        max_recovery_attempts: 3,
    };
    let mut recovery = KeyRecovery::new(config, KeyGenerator::new(KeyGenConfig::default()));
    let mut context = test_context(900);
    context.established_at = 5000;

    // Too old at 5101, exactly at the bound at 5100.
    assert!(recovery.start_recovery_at(&context, 5101).is_err());
    assert_eq!(recovery.attempts(), 1);
    assert_eq!(recovery.status(), RecoveryStatus::Failed);

    assert!(recovery.start_recovery_at(&context, 5100).is_ok());
    assert_eq!(recovery.status(), RecoveryStatus::VerifyingContext);
    assert_eq!(recovery.attempts(), 1);
}

#[test]
fn establishment_judged_at_fixed_times() {
    let cp = CoPresenceConfig {
        min_correlation: 800,
        max_time_diff: 100,
        min_proximity: 900,
        window_size: 1000,
    };
    let ctx_config = ContextConfig { min_quality: 800, required_windows: 3, max_age: 60_000 };
    let mut manager = ContextManager::new(ctx_config, CoPresenceValidator::new(cp));
    let mut peer: Vec<MeasurementWindow> = Vec::new();
    for i in 0..3u32 {
        manager.validator_mut().add_test_window(window(
            1000,
            vec![100 + i * 50, 300 + i * 50, 500 + i * 50],
            quality(950, 10_000, 980),
        ));
        peer.push(window(
            1000,
            vec![110 + i * 50, 310 + i * 50, 510 + i * 50],
            quality(950, 9_900, 980),
        ));
    }

    // At the windows' own time the context is established and stamped
    // with exactly that reading.
    let context = manager
        .establish_context_at(&peer, 1000)
        .unwrap()
        .expect("context should be established");
    assert_eq!(context.established_at, 1000);
    assert!(context.quality >= 800);

    // Far past the age bound every pair is stale: no context.
    let none = manager.establish_context_at(&peer, 1000 + 60_001).unwrap();
    assert!(none.is_none());

    // A reading before a window's start is a clock error.
    assert!(manager.establish_context_at(&peer, 999).is_err());
}

#[test]
fn end_to_end_key_agreement() {
    // Two devices with strongly correlated windows establish contexts,
    // derive identical keys and complete mutual confirmation.
    let ctx_config = ContextConfig { min_quality: 800, required_windows: 3, max_age: 60_000 };
    let cp_config = CoPresenceConfig {
        min_correlation: 800,
        max_time_diff: 100,
        min_proximity: 900,
        window_size: 1000,
    };
    let mut manager1 = ContextManager::new(ctx_config, CoPresenceValidator::new(cp_config));
    let mut manager2 = ContextManager::new(ctx_config, CoPresenceValidator::new(cp_config));

    let now = now_millis();
    for i in 0..3u32 {
        let w1 = window(
            now,
            vec![100 + i * 50, 300 + i * 50, 500 + i * 50, 700 + i * 50],
            quality(950, 10_000, 980),
        );
        let w2 = window(
            now,
            vec![110 + i * 50, 310 + i * 50, 510 + i * 50, 710 + i * 50],
            quality(950, 9_900, 980),
        );
        manager1.validator_mut().add_test_window(w1);
        manager2.validator_mut().add_test_window(w2);
    }

    let windows2 = manager2.validator().recent_windows(3);
    let context = manager1
        .establish_context(&windows2)
        .unwrap()
        .expect("context should be established");
    assert!(context.quality >= 800);

    // Both parties use the same established context.
    let gen_config = KeyGenConfig { key_length: 32, min_quality: 800, hash_iterations: 10_000 };
    let generator1 = KeyGenerator::new(gen_config);
    let generator2 = KeyGenerator::new(gen_config);
    let key1 = generator1.generate_key(&context).unwrap();
    let key2 = generator2.generate_key(&context).unwrap();
    assert_eq!(key1.key.len(), 32);
    assert_eq!(key1.key, key2.key);

    let mut exchange1 = KeyExchange::new(ExchangeConfig::default(), generator1);
    let mut exchange2 = KeyExchange::new(ExchangeConfig::default(), generator2);
    exchange1.start_exchange(&context).unwrap();
    exchange2.start_exchange(&context).unwrap();

    for round in 0..3 {
        let h1 = exchange1.generate_confirmation(round).unwrap();
        let h2 = exchange2.generate_confirmation(round).unwrap();
        assert!(exchange1.verify_confirmation(round, &h2).unwrap());
        assert!(exchange2.verify_confirmation(round, &h1).unwrap());
    }
    assert_eq!(exchange1.status(), ExchangeStatus::Complete);
    assert_eq!(exchange2.status(), ExchangeStatus::Complete);
}

#[test]
fn recovery_completes_through_rotation() {
    let context = test_context(950);

    let mut recovery = KeyRecovery::new(
        RecoveryConfig::default(),
        KeyGenerator::new(KeyGenConfig::default()),
    );
    let mut rotation = KeyRotation::new(
        RotationConfig::default(),
        KeyGenerator::new(KeyGenConfig::default()),
    );
    let mut exchange = KeyExchange::new(
        ExchangeConfig::default(),
        KeyGenerator::new(KeyGenConfig::default()),
    );

    recovery.start_recovery(&context).unwrap();
    let _key = recovery.generate_recovery_key(&context).unwrap();

    exchange.start_exchange(&context).unwrap();
    recovery.verify_recovery(&mut exchange, &mut rotation).unwrap();

    assert_eq!(recovery.status(), RecoveryStatus::Complete);
    assert!(rotation.active_key().is_some());
}
