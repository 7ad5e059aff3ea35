use fskc::enclave::{BlockContext, MemoryRegion, ProtectionLevel};
use fskc::holographic::compute::HomomorphicCompute;
use fskc::holographic::HolographicKeyPackage;
use fskc::microcontroller::instructions::{Instruction, MemoryAddress, Register};
use fskc::microcontroller::memory::{DataMemory, Memory, MemorySegment, ProgramMemory};
use fskc::microcontroller::Microcontroller;
use fskc::zkp_container::ZkpContainer;

fn setup_compute() -> HomomorphicCompute {
    let mut pkg = HolographicKeyPackage::new(vec![0x42; 32]);
    pkg.add_time_step(12345).unwrap();
    HomomorphicCompute::new(pkg).unwrap()
}

#[test]
fn test_instruction_encoding_decoding() {
    // Load
    let load = Instruction::Load(Register(0), MemoryAddress::new(0x400));
    let encoded = load.encode();
    assert_eq!(encoded[0], 0x80);
    assert_eq!(encoded[1], 0x00);
    let decoded = Instruction::decode(encoded[0], encoded[1]);
    assert_eq!(decoded, Some(load));

    // Store
    let store = Instruction::Store(MemoryAddress::new(0x402), Register(1));
    let encoded = store.encode();
    assert_eq!(encoded[0], 0x91);
    assert_eq!(encoded[1], 0x02);
    let decoded = Instruction::decode(encoded[0], encoded[1]);
    assert_eq!(decoded, Some(store));

    // Add
    let add = Instruction::Add(Register(1), Register(0), Register(1));
    let encoded = add.encode();
    assert_eq!(encoded[0], 0x03);
    assert_eq!(encoded[1], 0x11);
    let decoded = Instruction::decode(encoded[0], encoded[1]);
    assert_eq!(decoded, Some(add));

    // Different register combination
    let add_r2r3 = Instruction::Add(Register(2), Register(3), Register(1));
    let encoded = add_r2r3.encode();
    assert_eq!(encoded[0], 0x03);
    assert_eq!(encoded[1], 0x2D);
    let decoded = Instruction::decode(encoded[0], encoded[1]);
    assert_eq!(decoded, Some(add_r2r3));
}

#[test]
fn test_memory_address_encoding() {
    let addresses = [0x400, 0x401, 0x402, 0x4FF];
    for addr in addresses {
        let load = Instruction::Load(Register(0), MemoryAddress::new(addr));
        let encoded = load.encode();
        let decoded = Instruction::decode(encoded[0], encoded[1]);
        assert_eq!(decoded, Some(load), "Failed for address 0x{:X}", addr);
    }
}

#[test]
fn test_register_combinations() {
    for rd in 0..4u8 {
        for rs1 in 0..4u8 {
            for rs2 in 0..4u8 {
                let add = Instruction::Add(Register(rd), Register(rs1), Register(rs2));
                let encoded = add.encode();
                let decoded = Instruction::decode(encoded[0], encoded[1]);
                assert_eq!(decoded, Some(add), "Failed for rd={}, rs1={}, rs2={}", rd, rs1, rs2);
            }
        }
    }
}

#[test]
fn test_program_memory() {
    let mut mem = ProgramMemory::new(256);

    mem.write_byte(0, 0x42).unwrap();
    assert_eq!(mem.read_byte(0).unwrap(), 0x42);

    assert!(mem.write_byte(256, 0x42).is_err());
    assert!(mem.read_byte(256).is_err());
}

#[test]
fn test_data_memory() {
    let mut mem = DataMemory::new(256, 32);

    let data = vec![0x42; 32];
    mem.write(0, &data).unwrap();
    assert_eq!(mem.read(0).unwrap(), &data[..]);

    assert!(mem.write(256, &data).is_err());
    assert!(mem.write(0, &vec![0x42; 16]).is_err());
}

#[test]
fn test_memory_layout() {
    let mut mem = Memory::new(256);

    // Byte order preserved in program memory
    let test_val: u16 = 0x4217;
    let bytes = test_val.to_le_bytes();
    mem.write_bytes(0, &bytes).unwrap();
    let read_bytes = mem.read_bytes(0).unwrap();
    assert_eq!(read_bytes, &bytes, "Program memory should preserve byte order");
    let recovered_val = u16::from_le_bytes([read_bytes[0], read_bytes[1]]);
    assert_eq!(recovered_val, test_val);

    // Bit patterns preserved in the register file
    let bit_pattern = vec![0b10101010u8, 0b11110000, 0b00001111, 0xFF, 0x00];
    let mut reg_data = vec![0; 32];
    reg_data[..5].copy_from_slice(&bit_pattern);

    mem.write_bytes(0x100, &reg_data).unwrap();
    let read_reg = mem.read_bytes(0x100).unwrap();
    assert_eq!(&read_reg[..5], &bit_pattern, "Register should preserve bit patterns");

    // LSB/MSB handling in data memory
    let mut data = vec![0; 32];
    data[0] = 0x80;
    data[1] = 0x01;
    data[2] = 0x55;
    data[3] = 0xAA;

    mem.write_bytes(0x400, &data).unwrap();
    let read_data = mem.read_bytes(0x400).unwrap();

    assert_eq!(read_data[0], 0x80, "MSB should be preserved");
    assert_eq!(read_data[1], 0x01, "LSB should be preserved");
    assert_eq!(read_data[2], 0x55);
    assert_eq!(read_data[3], 0xAA);

    assert!(mem.write_bytes(0x800, &data).is_err());
    assert!(mem.write_bytes(0x400, &[0x42]).is_err());
}

#[test]
fn test_add_numbers() {
    let compute = setup_compute();
    let mut mc = Microcontroller::new(compute, 256).unwrap();

    // Add data mem[0] and mem[1], store in mem[2]
    let program = vec![
        0x80, 0x00, // LOAD R0, [0x400]
        0x81, 0x01, // LOAD R1, [0x401]
        0x03, 0x14, // ADD R1, R0, R1
        0x91, 0x02, // STORE [0x402], R1
        0xFF, 0x00, // HALT
    ];

    mc.load_program(&program).unwrap();

    let data1 = vec![42u8; 32];
    let data2 = vec![24u8; 32];

    mc.load_data(0x400, &data1).unwrap();
    mc.load_data(0x401, &data2).unwrap();

    mc.execute().unwrap();

    let result = mc.get_memory(0x402).unwrap();
    assert!(!result.iter().all(|&x| x == 0));
    assert_eq!(result[0], 42u8.wrapping_add(24));
}

#[test]
fn test_memory_protection() {
    let mut ctx = BlockContext::new(setup_compute());

    let region = MemoryRegion::new(0x1000, 0x2000, ProtectionLevel::Protected);
    ctx.add_region(region);

    // Denied in clear mode
    assert!(!ctx.check_access(0x1500, None));

    ctx.enter_blocked_mode(0, 100).unwrap();

    // Allowed in blocked mode
    assert!(ctx.check_access(0x1500, None));
}

#[test]
fn test_restricted_access() {
    let mut ctx = BlockContext::new(setup_compute());

    let region = MemoryRegion::new(
        0x1000,
        0x2000,
        ProtectionLevel::Restricted(vec![Instruction::Load(
            Register(0),
            MemoryAddress::new(0),
        )]),
    );
    ctx.add_region(region);

    ctx.enter_blocked_mode(0, 100).unwrap();

    assert!(ctx.check_access(
        0x1500,
        Some(Instruction::Load(Register(0), MemoryAddress::new(0)))
    ));

    assert!(!ctx.check_access(
        0x1500,
        Some(Instruction::Store(MemoryAddress::new(0), Register(0)))
    ));
}

#[test]
fn test_zkp_container() {
    let compute = setup_compute();

    let initial_state = vec![1u8; 32];
    let mut container = ZkpContainer::new(compute, initial_state.clone()).unwrap();

    let next_state = vec![2u8; 32];
    let forward_proof = container.prove_next(&next_state).unwrap();

    assert!(container.verify_next(&next_state, &forward_proof).unwrap());
    container.advance(next_state.clone(), &forward_proof).unwrap();
    assert_eq!(container.state(), &next_state[..]);

    let backward_proof = container.prove_previous(&initial_state).unwrap();

    assert!(container.verify_previous(&initial_state, &backward_proof).unwrap());
    container.reverse(initial_state.clone(), &backward_proof).unwrap();
    assert_eq!(container.state(), &initial_state[..]);
}

#[test]
fn binary_containers_verify_in_step() {
    let mut a = fskc::binary_container::BinaryContainer::new(4242, 3).unwrap();
    let mut b = fskc::binary_container::BinaryContainer::new(7777, 3).unwrap();
    assert_eq!(a.depth(), 3);

    // In step: the relationship holds through every layer.
    let result = a.interact(&mut b).unwrap();
    assert!(result.valid);
    assert!(result.all_layers_valid);
    assert_eq!(result.layer_depth, 3);

    // Evolve both containers: still in step.
    a.iterate().unwrap();
    b.iterate().unwrap();
    assert_eq!(a.iteration(), 1);
    let result = a.interact(&mut b).unwrap();
    assert!(result.valid);

    // Evolve one container only: out of step.
    a.iterate().unwrap();
    let result = a.interact(&mut b).unwrap();
    assert!(!result.valid);
}

#[test]
fn binary_container_clone_applies_pad() {
    let a = fskc::binary_container::BinaryContainer::new(99, 2).unwrap();
    let pad = vec![0x5Au8; 7];
    let cloned = a.clone_with_pad(&pad).unwrap();
    assert_eq!(cloned.depth(), 2);
    let mut expected: Vec<u8> = Vec::new();
    for (i, &s) in a.state().iter().enumerate() {
        expected.push(s ^ pad[i % pad.len()]);
    }
    assert_eq!(cloned.state(), &expected[..]);
}

#[test]
fn inside_out_roundtrip() {
    let data = b"Inside-out block processing".to_vec();
    let mut state = fskc::inside_out::SystemState::new(7).unwrap();
    let encrypted = state.encrypt(&data).unwrap();
    let decrypted = state.decrypt(&encrypted).unwrap();
    assert_eq!(data, decrypted);
}
