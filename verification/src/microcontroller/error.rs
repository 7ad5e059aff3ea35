//! Error types for memory access and CPU execution.
use crate::FskcError;
use vstd::prelude::*;

verus! {

/// Memory access errors.
#[derive(Debug, Clone, PartialEq, Eq)]
pub enum MemoryError {
    /// An address beyond the segment's size.
    OutOfBounds { addr: usize, size: usize },
    /// Data whose size does not match the segment's word size.
    InvalidSize { expected: usize, got: usize },
    /// An instruction that does not decode.
    InvalidInstruction,
}

impl MemoryError {
    /// A short description of the error.
    pub fn message(&self) -> (r: String)
        ensures
            self is OutOfBounds ==> r@ == "memory address out of bounds"@,
            self is InvalidSize ==> r@ == "invalid data size"@,
            self is InvalidInstruction ==> r@ == "invalid instruction encoding"@,
    {
        match self {
            MemoryError::OutOfBounds { .. } => "memory address out of bounds".to_owned(),
            MemoryError::InvalidSize { .. } => "invalid data size".to_owned(),
            MemoryError::InvalidInstruction => "invalid instruction encoding".to_owned(),
        }
    }

    /// The error as a library error value: a `Custom` error carrying
    /// the variant's message.
    pub fn into_fskc(self) -> (r: FskcError)
        ensures
            r is Custom,
            self is OutOfBounds ==> r->Custom_0@ == "memory address out of bounds"@,
            self is InvalidSize ==> r->Custom_0@ == "invalid data size"@,
            self is InvalidInstruction ==> r->Custom_0@ == "invalid instruction encoding"@,
    {
        FskcError::Custom(self.message())
    }
}

/// CPU execution errors.
#[derive(Debug, Clone, PartialEq, Eq)]
pub enum CpuError {
    /// An instruction that does not decode.
    InvalidInstruction,
    /// A failure in the compute engine.
    ComputeError(String),
}

impl CpuError {
    /// A short description of the error.
    pub fn message(&self) -> (r: String)
        ensures
            self is InvalidInstruction ==> r@ == "invalid instruction"@,
    {
        match self {
            CpuError::InvalidInstruction => "invalid instruction".to_owned(),
            CpuError::ComputeError(m) => m.as_str().to_owned(),
        }
    }

    /// The error as a library error value.
    pub fn into_fskc(self) -> (r: FskcError)
        ensures
            r is Custom,
    {
        FskcError::Custom(self.message())
    }
}

} // verus!
