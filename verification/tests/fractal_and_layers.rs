use fskc::crypto::{chacha_pad, xor_with_seeded_pad};
use fskc::fractal::FractalNode;
use fskc::layered::{LayerConfig, LayeredCrypto, SymmetricLayer};
use fskc::FskcError;

#[test]
fn test_fractal_encryption_decryption() {
    let data = b"Hello, Fractal World!".to_vec();
    let seed = 12345;
    let depth = 3;
    let chunk_size = 4;

    let node = FractalNode::generate(data.clone(), seed, depth, chunk_size)
        .expect("Failed to generate fractal");
    let decrypted = node.decrypt().expect("Failed to decrypt");
    assert_eq!(data, decrypted, "Decrypted data doesn't match original");
}

#[test]
fn test_invalid_depth() {
    let data = vec![1, 2, 3, 4];
    let result = FractalNode::generate(data, 12345, 0, 2);
    assert!(matches!(result, Err(FskcError::InvalidDepth(0))));
}

#[test]
fn fractal_test_empty_data() {
    let data = vec![];
    let result = FractalNode::generate(data, 12345, 3, 2);
    assert!(matches!(result, Err(FskcError::InvalidDataSize(0))));
}

#[test]
fn test_xor_roundtrip() {
    let data = b"Test data for XOR".to_vec();
    let seed = 12345;

    let encrypted = xor_with_seeded_pad(&data, seed);
    assert_ne!(data, encrypted);
    let decrypted = xor_with_seeded_pad(&encrypted, seed);
    assert_eq!(data, decrypted);
}

#[test]
fn test_random_bytes_deterministic() {
    let seed = 12345;
    let length = 16;

    let bytes1 = chacha_pad(seed, length);
    let bytes2 = chacha_pad(seed, length);
    assert_eq!(bytes1, bytes2);

    let bytes3 = chacha_pad(seed + 1, length);
    assert_ne!(bytes1, bytes3);
}

#[test]
fn test_default_config() {
    let config = LayerConfig::default();
    assert_eq!(config.layer_count(), 2);
    assert_eq!(config.fractal_depth_value(), 3);
    assert_eq!(config.chunk_size_value(), 64);
    assert!(!config.zippering_enabled());
}

#[test]
fn test_builder_pattern() {
    let config = LayerConfig::builder()
        .add_fractal()
        .add_aes()
        .add_chacha()
        .fractal_depth(2)
        .chunk_size(128)
        .enable_zippering()
        .build();

    assert_eq!(config.layer_count(), 3);
    assert_eq!(config.fractal_depth_value(), 2);
    assert_eq!(config.chunk_size_value(), 128);
    assert!(config.zippering_enabled());
}

#[test]
fn test_symmetric_layers() {
    let data = b"Test symmetric encryption".to_vec();
    let key = [7u8; 32];
    let nonce = [9u8; 12];

    for layer in [SymmetricLayer::Aes, SymmetricLayer::ChaCha] {
        let encrypted = layer.encrypt(&key, &nonce, &data).unwrap();
        let decrypted = layer.decrypt(&encrypted).unwrap();
        assert_eq!(data, decrypted);
    }
}

#[test]
fn test_fractal_layer() {
    let data = b"Test fractal layer".to_vec();
    let layer = fskc::layered::FractalLayer::new();

    let node = layer.generate(data.clone(), 12345, 3, 64).unwrap();
    let decrypted = node.decrypt().unwrap();
    assert_eq!(data, decrypted);
}

#[test]
fn test_basic_sequence() {
    let data = b"Test data for layered encryption".to_vec();
    let initial_seed = 12345;
    let master_seed = 67890;

    let config = LayerConfig::builder()
        .add_fractal()
        .add_aes()
        .add_chacha()
        .add_fractal()
        .build();

    let mut crypto = LayeredCrypto::with_config(master_seed, config.clone());
    let encrypted = crypto.encrypt(&data, initial_seed).unwrap();
    let mut crypto = LayeredCrypto::with_config(master_seed, config.clone());
    let decrypted = crypto.decrypt(&encrypted, initial_seed).unwrap();
    assert_eq!(data, decrypted);
}

#[test]
fn test_with_zippering() {
    let data = b"Test data with self-zippering".to_vec();
    let initial_seed = 12345;
    let master_seed = 67890;

    let config = LayerConfig::builder()
        .add_fractal()
        .add_aes()
        .enable_zippering()
        .build();

    let mut crypto = LayeredCrypto::with_config(master_seed, config.clone());
    let encrypted = crypto.encrypt(&data, initial_seed).unwrap();
    let mut crypto = LayeredCrypto::with_config(master_seed, config.clone());
    let decrypted = crypto.decrypt(&encrypted, initial_seed).unwrap();
    assert_eq!(data, decrypted);
}

#[test]
fn test_zero_depth() {
    let data = vec![1, 2, 3, 4];
    let result = FractalNode::generate(data, 12345, 0, 2);
    assert!(matches!(result, Err(_)));
}

#[test]
fn integration_tests_test_empty_data() {
    let data = vec![];
    let result = FractalNode::generate(data, 12345, 3, 2);
    assert!(matches!(result, Err(_)));
}

#[test]
fn test_invalid_chunk_size() {
    let data = vec![1, 2, 3, 4];
    let result = FractalNode::generate(data, 12345, 3, 0);
    assert!(matches!(result, Err(_)));
}
