//! A cryptographic library built on fractal structures, time-stepped
//! homomorphic computation, and a pairing protocol that derives a shared
//! symmetric key for two co-located devices from correlated ambient
//! measurements, then manages that key's whole lifecycle: confirmation,
//! rotation, and attempt-limited recovery.
pub mod binary_container;
pub mod clock;
pub mod crypto;
pub mod enclave;
pub mod entropy;
pub mod fractal;
pub mod holographic;
pub mod inside_out;
pub mod layered;
pub mod microcontroller;
pub mod pairlet;
pub mod triplet;
pub mod utils;
pub mod vm;
pub mod zkp_container;

pub use binary_container::{BinaryContainer, VerificationResult};
pub use enclave::{BlockContext, ExecutionMode, MemoryRegion, ProtectionLevel};
pub use entropy::{EntropySource, PhysicalEntropy};
pub use fractal::FractalNode;
pub use holographic::compute::{HomomorphicCompute, Operation};
pub use holographic::HolographicKeyPackage;
pub use inside_out::{ComputePair, SystemState};
pub use layered::{FractalLayer, Layer, LayerConfig, LayeredCrypto, SymmetricLayer};
pub use zkp_container::ZkpContainer;

use vstd::prelude::*;

verus! {

/// Errors reported by the library's operations.
#[derive(Debug, Clone, PartialEq, Eq)]
pub enum FskcError {
    /// The requested fractal depth was zero or otherwise unusable.
    InvalidDepth(usize),
    /// A data or chunk size was empty or out of range.
    InvalidDataSize(usize),
    /// A seed value failed validation.
    InvalidSeed,
    /// An invalid number of particles.
    InvalidParticles(usize),
    /// A geometric-space failure.
    GeometricError(String),
    /// A random-generator failure.
    RngError(String),
    /// An encryption step failed.
    EncryptionError(String),
    /// A decryption step failed.
    DecryptionError(String),
    /// A roving-selector failure.
    RovingError(String),
    /// An entropy-source failure.
    EntropyError(String),
    /// A sensor failure.
    SensorError(String),
    /// Any other failure, described by a message.
    Custom(String),
}

} // verus!
