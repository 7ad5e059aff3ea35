//! An AVR-like microcontroller whose arithmetic runs through the
//! homomorphic compute engine.
pub mod cpu;
pub mod error;
pub mod instructions;
pub mod memory;

pub use cpu::Cpu;
pub use error::{CpuError, MemoryError};
pub use instructions::{Instruction, MemoryAddress, Register, StatusFlags};
pub use memory::{Memory, MemorySegment};

use crate::holographic::compute::HomomorphicCompute;
use crate::FskcError;
use vstd::prelude::*;

verus! {

/// An AVR-like microcontroller with homomorphic computation
/// capabilities: a CPU with a fixed 32-byte word size.
pub struct Microcontroller {
    cpu: Cpu,
    word_size: usize,
}

impl Microcontroller {
    /// The fixed word size.
    pub closed spec fn spec_word_size(&self) -> int {
        self.word_size as int
    }

    /// The machine's invariant.
    pub open spec fn wf(&self) -> bool {
        &&& self.spec_cpu_wf()
        &&& self.spec_word_size() == 32
    }

    /// Whether the CPU is well formed.
    pub closed spec fn spec_cpu_wf(&self) -> bool {
        self.cpu.wf()
    }

    /// Create a microcontroller around a compute engine with the given
    /// data memory size in words.
    pub fn new(compute: HomomorphicCompute, memory_size: usize) -> (r: Result<
        Microcontroller,
        FskcError,
    >)
        requires
            compute.wf(),
            memory_size <= 0x7FFF_FFFF,
        ensures
            r is Ok,
            r matches Ok(m) ==> m.wf(),
    {
        Ok(Microcontroller { cpu: Cpu::new(compute, memory_size, 32), word_size: 32 })
    }

    /// Load a program into memory; each instruction is two bytes.
    pub fn load_program(&mut self, program: &[u8]) -> (r: Result<(), FskcError>)
        requires
            old(self).wf(),
        ensures
            final(self).wf(),
    {
        self.cpu.load_program(program)
    }

    /// Load one data word into memory; the data must match the word
    /// size.
    pub fn load_data(&mut self, addr: u16, data: &[u8]) -> (r: Result<(), FskcError>)
        requires
            old(self).wf(),
        ensures
            final(self).wf(),
            data@.len() != 32 ==> (r is Err),
    {
        if data.len() != self.word_size {
            return Err(
                (MemoryError::InvalidSize { expected: self.word_size, got: data.len() }).into_fskc(),
            );
        }
        self.cpu.load_data(MemoryAddress::new(addr), data)
    }

    /// Read the memory value at an address.
    pub fn get_memory(&self, addr: u16) -> (r: Result<&[u8], FskcError>)
        requires
            self.wf(),
        ensures
            r matches Ok(s) ==> (s@.len() == 2 || s@.len() == 32),
    {
        self.cpu.read_memory(MemoryAddress::new(addr))
    }

    /// Execute the loaded program.
    pub fn execute(&mut self) -> (r: Result<(), FskcError>)
        requires
            old(self).wf(),
        ensures
            final(self).wf(),
    {
        self.cpu.execute()
    }

    /// The current program counter.
    pub fn pc(&self) -> usize {
        self.cpu.pc()
    }
}

} // verus!
