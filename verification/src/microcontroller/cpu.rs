//! The CPU: fetch, decode and execute over the memory unit, with
//! arithmetic running through the homomorphic compute engine.
use super::error::CpuError;
use super::instructions::{Instruction, MemoryAddress, StatusFlags};
use super::memory::{copy_slice, Memory};
use crate::holographic::compute::{HomomorphicCompute, Operation};
use crate::FskcError;
use vstd::prelude::*;

verus! {

/// The most instructions one `execute` call will run before giving up;
/// a bound keeps the interpreter total.
pub const MAX_CPU_STEPS: usize = 1_000_000;

/// An AVR-like CPU with homomorphic computation capabilities.
pub struct Cpu {
    pc: usize,
    flags: StatusFlags,
    compute: HomomorphicCompute,
    memory: Memory,
}

impl Cpu {
    /// The memory unit.
    pub closed spec fn spec_memory(&self) -> Memory {
        self.memory
    }

    /// The program counter.
    pub closed spec fn spec_pc(&self) -> nat {
        self.pc as nat
    }

    /// The CPU's invariant: a sound memory map and compute engine.
    pub open spec fn wf(&self) -> bool {
        &&& self.spec_memory().wf()
        &&& self.spec_compute_wf()
    }

    /// Whether the compute engine is well formed.
    pub closed spec fn spec_compute_wf(&self) -> bool {
        self.compute.wf()
    }

    /// Create a new CPU around a compute engine with the given data
    /// memory size in words.
    pub fn new(compute: HomomorphicCompute, memory_size: usize, word_size: usize) -> (r: Self)
        requires
            compute.wf(),
            memory_size <= 0x7FFF_FFFF,
        ensures
            r.wf(),
            r.spec_pc() == 0,
    {
        Cpu { pc: 0, flags: StatusFlags::new(), compute, memory: Memory::new(memory_size) }
    }

    /// The current program counter.
    pub fn pc(&self) -> (r: usize)
        ensures
            r == self.spec_pc(),
    {
        self.pc
    }

    /// Load a program into program memory.
    pub fn load_program(&mut self, program: &[u8]) -> (r: Result<(), FskcError>)
        requires
            old(self).wf(),
        ensures
            final(self).wf(),
            final(self).spec_pc() == old(self).spec_pc(),
            r is Ok <==> program@.len() <= old(self).spec_memory().spec_program().len(),
    {
        self.memory.write_program(program)
    }

    /// Load data into memory at an address.
    pub fn load_data(&mut self, addr: MemoryAddress, data: &[u8]) -> (r: Result<(), FskcError>)
        requires
            old(self).wf(),
        ensures
            final(self).wf(),
            final(self).spec_pc() == old(self).spec_pc(),
    {
        self.memory.write_bytes(addr.value(), data)
    }

    /// Read from memory at an address.
    pub fn read_memory(&self, addr: MemoryAddress) -> (r: Result<&[u8], FskcError>)
        requires
            self.wf(),
        ensures
            r matches Ok(s) ==> (s@.len() == 2 || s@.len() == 32),
    {
        self.memory.read_bytes(addr.value())
    }

    /// Execute the loaded program: fetch two bytes at the program
    /// counter, decode, execute, and advance until a halt, an error, or
    /// the step bound.
    pub fn execute(&mut self) -> (r: Result<(), FskcError>)
        requires
            old(self).wf(),
        ensures
            final(self).wf(),
    {
        let mut steps: usize = 0;
        while steps < MAX_CPU_STEPS
            invariant
                self.wf(),
                steps <= MAX_CPU_STEPS,
            decreases MAX_CPU_STEPS - steps,
        {
            steps = steps + 1;
            let fetched: (u8, u8) = match self.memory.read_bytes(self.pc) {
                Ok(bytes) => {
                    if bytes.len() < 2 {
                        return Err(CpuError::InvalidInstruction.into_fskc());
                    }
                    (bytes[0], bytes[1])
                },
                Err(e) => {
                    return Err(e);
                },
            };
            match Instruction::decode(fetched.0, fetched.1) {
                Some(instr) => {
                    match instr {
                        Instruction::Halt => {
                            return Ok(());
                        },
                        _ => {
                            match self.execute_instruction(instr) {
                                Ok(()) => {},
                                Err(e) => {
                                    return Err(e);
                                },
                            }
                        },
                    }
                    if self.pc > usize::MAX - 2 {
                        return Err(CpuError::InvalidInstruction.into_fskc());
                    }
                    self.pc = self.pc + 2;
                },
                None => {
                    return Err(CpuError::InvalidInstruction.into_fskc());
                },
            }
        }
        Err(CpuError::InvalidInstruction.into_fskc())
    }

    /// Execute a single instruction.
    fn execute_instruction(&mut self, instr: Instruction) -> (r: Result<(), FskcError>)
        requires
            old(self).wf(),
        ensures
            final(self).wf(),
    {
        match instr {
            Instruction::Load(rd, addr) => {
                let data: Vec<u8> = match self.memory.read_bytes(addr.value()) {
                    Ok(s) => copy_slice(s),
                    Err(e) => {
                        return Err(e);
                    },
                };
                if rd.index() > usize::MAX - 0x100 {
                    return Err(CpuError::InvalidInstruction.into_fskc());
                }
                self.memory.write_bytes(rd.index() + 0x100, data.as_slice())
            },
            Instruction::Store(addr, rs) => {
                let data: Vec<u8> = match self.memory.read_bytes(rs.index() + 0x100) {
                    Ok(s) => copy_slice(s),
                    Err(e) => {
                        return Err(e);
                    },
                };
                self.memory.write_bytes(addr.value(), data.as_slice())
            },
            Instruction::Add(rd, rs1, rs2) => {
                self.binary_op(Operation::Add, rd.index(), rs1.index(), rs2.index())
            },
            Instruction::Xor(rd, rs1, rs2) => {
                self.binary_op(Operation::Xor, rd.index(), rs1.index(), rs2.index())
            },
            Instruction::Jump(addr) => {
                self.pc = addr.value();
                Ok(())
            },
            Instruction::BranchEq(addr) => {
                if self.flags.zero {
                    self.pc = addr.value();
                }
                Ok(())
            },
            _ => Ok(()),
        }
    }

    /// Run a register-to-register operation through the compute engine.
    fn binary_op(&mut self, op: Operation, rd: usize, rs1: usize, rs2: usize) -> (r: Result<
        (),
        FskcError,
    >)
        requires
            old(self).wf(),
        ensures
            final(self).wf(),
    {
        if rs1 > usize::MAX - 0x100 || rs2 > usize::MAX - 0x100 || rd > usize::MAX - 0x100 {
            return Err(CpuError::InvalidInstruction.into_fskc());
        }
        let op1: Vec<u8> = match self.memory.read_bytes(rs1 + 0x100) {
            Ok(s) => copy_slice(s),
            Err(e) => {
                return Err(e);
            },
        };
        let op2: Vec<u8> = match self.memory.read_bytes(rs2 + 0x100) {
            Ok(s) => copy_slice(s),
            Err(e) => {
                return Err(e);
            },
        };
        if op1.len() != op2.len() {
            return Err(CpuError::InvalidInstruction.into_fskc());
        }
        match self.compute.load(0, &op1) {
            Ok(()) => {},
            Err(e) => {
                return Err(e);
            },
        }
        match self.compute.load(1, &op2) {
            Ok(()) => {},
            Err(e) => {
                return Err(e);
            },
        }
        match self.compute.compute(op, 0, 1) {
            Ok(()) => {},
            Err(e) => {
                return Err(e);
            },
        }
        let result = match self.compute.read(0) {
            Ok(v) => v,
            Err(e) => {
                return Err(e);
            },
        };
        self.memory.write_bytes(rd + 0x100, result.as_slice())
    }
}

} // verus!
