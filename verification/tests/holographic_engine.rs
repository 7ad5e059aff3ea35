use fskc::holographic::compute::{HomomorphicCompute, Operation};
use fskc::holographic::homomorphic::HomomorphicKeyPackage;
use fskc::holographic::HolographicKeyPackage;

fn setup_compute() -> HomomorphicCompute {
    let mut pkg = HolographicKeyPackage::new(vec![0x42; 32]);
    pkg.add_time_step(12345).unwrap();
    HomomorphicCompute::new(pkg).unwrap()
}

#[test]
fn it_works() {
    // Basic sanity test
    assert!(true);
}

#[test]
fn test_key_derivation() {
    let root_pkg = HolographicKeyPackage::new(vec![0x42; 32]);
    let derived_pkg = root_pkg.derive_enclave_key().unwrap();
    let derived_pkg2 = root_pkg.derive_enclave_key().unwrap();

    // The derived key differs from the root but is deterministic: a
    // second derivation encrypts identically.
    let sample = vec![1u8, 2, 3, 4];
    let mut via_root = sample.clone();
    root_pkg.apply_forward(&mut via_root).unwrap();
    let mut via_derived = sample.clone();
    derived_pkg.apply_forward(&mut via_derived).unwrap();
    assert_ne!(via_root, via_derived);

    let mut via_derived2 = sample.clone();
    derived_pkg2.apply_forward(&mut via_derived2).unwrap();
    assert_eq!(via_derived, via_derived2);
}

#[test]
fn test_time_sequence_encryption() {
    let mut pkg = HolographicKeyPackage::new(vec![0x42; 32]);

    for i in 0..3 {
        pkg.add_time_step(12345 + i).unwrap();
    }

    let original = b"Test message".to_vec();
    let mut encrypted = original.clone();

    while pkg.current_step() + 1 < pkg.num_steps() {
        pkg.apply_forward(&mut encrypted).unwrap();
        assert_ne!(original, encrypted);
        pkg.apply_backward(&mut encrypted).unwrap();
        assert_eq!(original, encrypted);
        pkg.advance().unwrap();
    }
}

#[test]
fn test_homomorphic_operations() {
    let mut pkg = HolographicKeyPackage::new(vec![0x42; 32]);
    pkg.add_time_step(12345).unwrap();

    let num1 = vec![25u8];
    let num2 = vec![17u8];
    let expected_xor = vec![num1[0] ^ num2[0]];

    let mut encrypted1 = num1.clone();
    let mut encrypted2 = num2.clone();

    pkg.apply_forward(&mut encrypted1).unwrap();
    pkg.apply_forward(&mut encrypted2).unwrap();

    let xor_result = pkg.homomorphic_operation(&encrypted1, &encrypted2).unwrap();

    let mut decrypted_xor = xor_result;
    pkg.apply_backward(&mut decrypted_xor).unwrap();

    assert_eq!(decrypted_xor, expected_xor, "Homomorphic XOR failed");
}

#[test]
fn test_derived_operations() {
    let root_pkg = HolographicKeyPackage::new(vec![0x42; 32]);
    let mut derived_pkg = root_pkg.derive_enclave_key().unwrap();
    derived_pkg.add_time_step(12345).unwrap();

    let num1 = vec![25u8];
    let num2 = vec![17u8];
    let expected_xor = vec![num1[0] ^ num2[0]];

    let mut encrypted1 = num1.clone();
    let mut encrypted2 = num2.clone();

    derived_pkg.apply_forward(&mut encrypted1).unwrap();
    derived_pkg.apply_forward(&mut encrypted2).unwrap();

    let xor_result = derived_pkg.homomorphic_operation(&encrypted1, &encrypted2).unwrap();

    let mut decrypted_xor = xor_result;
    derived_pkg.apply_backward(&mut decrypted_xor).unwrap();

    assert_eq!(decrypted_xor, expected_xor, "Derived homomorphic XOR failed");
}

#[test]
fn test_register_operations() {
    let mut compute = setup_compute();

    let value = vec![25u8];
    compute.load(0, &value).unwrap();
    let result = compute.read(0).unwrap();
    assert_eq!(result, value);
}

#[test]
fn test_xor_operation() {
    let mut compute = setup_compute();

    let value1 = vec![25u8];
    let value2 = vec![17u8];

    compute.load(0, &value1).unwrap();
    compute.load(1, &value2).unwrap();

    compute.compute(Operation::Xor, 0, 1).unwrap();
    let result = compute.read(0).unwrap();

    assert_eq!(result[0], value1[0] ^ value2[0]);
}

#[test]
fn test_add_operation() {
    let mut compute = setup_compute();

    let value1 = vec![25u8];
    let value2 = vec![17u8];

    compute.load(0, &value1).unwrap();
    compute.load(1, &value2).unwrap();

    compute.compute(Operation::Add, 0, 1).unwrap();
    let result = compute.read(0).unwrap();

    assert_eq!(result[0], value1[0].wrapping_add(value2[0]));
}

#[test]
fn test_flags() {
    let mut compute = setup_compute();

    // Zero flag
    compute.load(0, &vec![0u8]).unwrap();
    compute.load(1, &vec![0u8]).unwrap();
    compute.compute(Operation::Add, 0, 1).unwrap();
    assert_eq!(compute.flags() & 2, 2, "Zero flag should be set");

    // Non-zero result
    compute.load(0, &vec![1u8]).unwrap();
    compute.load(1, &vec![1u8]).unwrap();
    compute.compute(Operation::Add, 0, 1).unwrap();
    assert_eq!(compute.flags() & 2, 0, "Zero flag should not be set");

    // Carry flag
    compute.load(0, &vec![255u8]).unwrap();
    compute.load(1, &vec![1u8]).unwrap();
    compute.compute(Operation::Add, 0, 1).unwrap();
    assert_eq!(compute.flags() & 1, 1, "Carry flag should be set");
}

#[test]
fn test_logical_operations() {
    let mut compute = setup_compute();

    let test_patterns = vec![
        (0b10101010u8, 0b11001100u8, 0b10001000u8, 0b11101110u8, 0b01100110u8),
        (0b11110000, 0b00001111, 0b00000000, 0b11111111, 0b11111111),
        (0b00000001, 0b10000000, 0b00000000, 0b10000001, 0b10000001),
        (0b01010101, 0b10101010, 0b00000000, 0b11111111, 0b11111111),
    ];

    for (val1, val2, and_expected, or_expected, xor_expected) in test_patterns {
        compute.load(0, &vec![val1]).unwrap();
        compute.load(1, &vec![val2]).unwrap();
        compute.compute(Operation::And, 0, 1).unwrap();
        let result = compute.read(0).unwrap();
        assert_eq!(result[0], and_expected);

        compute.load(0, &vec![val1]).unwrap();
        compute.load(1, &vec![val2]).unwrap();
        compute.compute(Operation::Or, 0, 1).unwrap();
        let result = compute.read(0).unwrap();
        assert_eq!(result[0], or_expected);

        compute.load(0, &vec![val1]).unwrap();
        compute.load(1, &vec![val2]).unwrap();
        compute.compute(Operation::Xor, 0, 1).unwrap();
        let result = compute.read(0).unwrap();
        assert_eq!(result[0], xor_expected);
    }
}

#[test]
fn homomorphic_package_roundtrip() {
    let pkg = HomomorphicKeyPackage::new(vec![0x42; 32]);

    // Encrypt then decrypt restores the data.
    let original = vec![25u8, 17, 200, 3];
    let mut data = original.clone();
    pkg.encrypt(&mut data).unwrap();
    assert_ne!(data, original);
    pkg.decrypt(&mut data).unwrap();
    assert_eq!(data, original);

    // The XOR of two ciphertexts is the XOR of the plaintexts: the
    // cyclic pad cancels without any decryption step.
    let mut enc1 = vec![25u8];
    let mut enc2 = vec![17u8];
    pkg.encrypt(&mut enc1).unwrap();
    pkg.encrypt(&mut enc2).unwrap();
    assert_eq!(enc1[0] ^ enc2[0], 25 ^ 17);
}
