//! A RISC-like virtual machine whose arithmetic runs through the
//! homomorphic compute engine: sixteen 32-byte registers and a
//! word-addressed data memory.
use crate::holographic::compute::{
    spec_add_seq, spec_op_result, HomomorphicCompute, Operation,
};
use crate::microcontroller::memory::{copy_slice, wf_words, word_views};
use crate::FskcError;
use vstd::prelude::*;

verus! {

/// The most instructions one `execute` call will run before giving up;
/// a bound keeps the interpreter total.
pub const MAX_VM_STEPS: usize = 1_000_000;

/// A RISC-like instruction.
#[derive(Debug, Clone, Copy, PartialEq, Eq, Structural)]
pub enum Instruction {
    /// Load memory[src] into register[dst].
    Load(u8, u8),
    /// Store register[src] to memory[dst].
    Store(u8, u8),
    /// Move register[src] to register[dst].
    Move(u8, u8),
    /// register[dst] = register[src1] + register[src2].
    Add(u8, u8, u8),
    /// A subtraction-form operation: the two registers are added and the
    /// result is then XORed with itself, as the machine wires it.
    Sub(u8, u8, u8),
    /// register[dst] = register[src1] ^ register[src2].
    Xor(u8, u8, u8),
    /// Jump to the instruction at an index.
    Jump(u8),
    /// Jump when register[cond] is not all zeros.
    JumpIf(u8, u8),
    /// Stop execution.
    Halt,
}

/// The instruction a program word decodes to: the first byte is the
/// opcode, the rest are parameters; an unknown opcode is treated as a
/// halt.
pub open spec fn spec_decode_word(bytes: Seq<u8>) -> Instruction {
    if bytes.len() < 4 {
        Instruction::Halt
    } else if bytes[0] == 0 {
        Instruction::Load(bytes[1], bytes[2])
    } else if bytes[0] == 1 {
        Instruction::Store(bytes[1], bytes[2])
    } else if bytes[0] == 2 {
        Instruction::Move(bytes[1], bytes[2])
    } else if bytes[0] == 3 {
        Instruction::Add(bytes[1], bytes[2], bytes[3])
    } else if bytes[0] == 4 {
        Instruction::Sub(bytes[1], bytes[2], bytes[3])
    } else if bytes[0] == 5 {
        Instruction::Xor(bytes[1], bytes[2], bytes[3])
    } else if bytes[0] == 6 {
        Instruction::Jump(bytes[1])
    } else if bytes[0] == 7 {
        Instruction::JumpIf(bytes[1], bytes[2])
    } else {
        Instruction::Halt
    }
}

/// A value normalized through the compute engine: the machine loads it
/// and adds the register to itself once, so the stored form is the
/// byte-wise double of the value, carries included.
pub open spec fn spec_normalize(v: Seq<u8>) -> Seq<u8> {
    spec_add_seq(v, v, v.len() as int).0
}

/// What a register-to-register operation stores: the operation applied
/// to the two normalized sources, and, for the subtraction form, the
/// result XORed with itself.
pub open spec fn spec_vm_arith(op: Operation, negate: bool, a: Seq<u8>, b: Seq<u8>) -> Seq<u8> {
    let combined = spec_op_result(op, spec_normalize(a), spec_normalize(b));
    if negate {
        spec_op_result(Operation::Xor, combined, combined)
    } else {
        combined
    }
}

/// The virtual machine state.
pub struct VirtualMachine {
    compute: HomomorphicCompute,
    registers: Vec<Vec<u8>>,
    program: Vec<Vec<u8>>,
    memory: Vec<Vec<u8>>,
    pc: usize,
}

impl VirtualMachine {
    /// The registers' contents.
    pub closed spec fn spec_registers(&self) -> Seq<Seq<u8>> {
        word_views(self.registers@)
    }

    /// The memory's contents.
    pub closed spec fn spec_memory(&self) -> Seq<Seq<u8>> {
        word_views(self.memory@)
    }

    /// The loaded program words.
    pub closed spec fn spec_program(&self) -> Seq<Seq<u8>> {
        word_views(self.program@)
    }

    /// The program counter.
    pub closed spec fn spec_pc(&self) -> int {
        self.pc as int
    }

    /// Whether the compute engine is well formed.
    pub closed spec fn spec_compute_wf(&self) -> bool {
        self.compute.wf()
    }

    /// Sixteen 32-byte registers, 32-byte memory words, a sound engine.
    pub open spec fn wf(&self) -> bool {
        &&& self.spec_compute_wf()
        &&& self.spec_registers().len() == 16
        &&& wf_words(self.spec_registers(), 32)
        &&& wf_words(self.spec_memory(), 32)
    }

    /// Create a machine with the given number of 32-byte memory words.
    pub fn new(compute: HomomorphicCompute, memory_size: usize) -> (r: Result<
        VirtualMachine,
        FskcError,
    >)
        requires
            compute.wf(),
        ensures
            r is Ok,
            r matches Ok(vm) ==> ({
                &&& vm.wf()
                &&& vm.spec_memory().len() == memory_size
                &&& vm.spec_pc() == 0
                &&& vm.spec_program().len() == 0
            }),
    {
        let mut registers: Vec<Vec<u8>> = Vec::new();
        let mut i: usize = 0;
        while i < 16
            invariant
                i <= 16,
                registers@.len() == i,
                forall|j: int| 0 <= j < i ==> (#[trigger] registers@[j])@.len() == 32,
            decreases 16 - i,
        {
            let w: Vec<u8> = vec![0u8; 32];
            registers.push(w);
            i = i + 1;
        }
        let mut memory: Vec<Vec<u8>> = Vec::new();
        let mut m: usize = 0;
        while m < memory_size
            invariant
                m <= memory_size,
                memory@.len() == m,
                forall|j: int| 0 <= j < m ==> (#[trigger] memory@[j])@.len() == 32,
            decreases memory_size - m,
        {
            let w: Vec<u8> = vec![0u8; 32];
            memory.push(w);
            m = m + 1;
        }
        Ok(VirtualMachine { compute, registers, program: Vec::new(), memory, pc: 0 })
    }

    /// Load a program: one word per instruction, each at least four
    /// bytes.
    pub fn load_program(&mut self, program: &Vec<Vec<u8>>) -> (r: Result<(), FskcError>)
        requires
            old(self).wf(),
        ensures
            final(self).wf(),
            r is Ok,
            final(self).spec_program() == word_views(program@),
            final(self).spec_registers() == old(self).spec_registers(),
            final(self).spec_memory() == old(self).spec_memory(),
    {
        let mut copied: Vec<Vec<u8>> = Vec::new();
        let mut i: usize = 0;
        while i < program.len()
            invariant
                i <= program@.len(),
                copied@.len() == i,
                forall|j: int| 0 <= j < i ==> (#[trigger] copied@[j])@ == program@[j]@,
            decreases program@.len() - i,
        {
            let w = copy_slice(program[i].as_slice());
            copied.push(w);
            i = i + 1;
        }
        self.program = copied;
        proof {
            assert(self.spec_program() =~= word_views(program@));
        }
        Ok(())
    }

    /// Execute the loaded program until a halt, the end of the program,
    /// an error, or the step bound.
    pub fn execute(&mut self) -> (r: Result<(), FskcError>)
        requires
            old(self).wf(),
        ensures
            final(self).wf(),
    {
        let mut steps: usize = 0;
        while steps < MAX_VM_STEPS
            invariant
                self.wf(),
            decreases MAX_VM_STEPS - steps,
        {
            steps = steps + 1;
            if self.pc >= self.program.len() {
                return Ok(());
            }
            let instr = self.decode_instruction(self.pc);
            match instr {
                Instruction::Load(src, dst) => {
                    match self.move_word(MoveKind::MemToReg, src as usize, dst as usize) {
                        Ok(()) => {},
                        Err(e) => {
                            return Err(e);
                        },
                    }
                },
                Instruction::Store(src, dst) => {
                    match self.move_word(MoveKind::RegToMem, src as usize, dst as usize) {
                        Ok(()) => {},
                        Err(e) => {
                            return Err(e);
                        },
                    }
                },
                Instruction::Move(src, dst) => {
                    match self.move_word(MoveKind::RegToReg, src as usize, dst as usize) {
                        Ok(()) => {},
                        Err(e) => {
                            return Err(e);
                        },
                    }
                },
                Instruction::Add(src1, src2, dst) => {
                    match self.arithmetic(Operation::Add, src1 as usize, src2 as usize, dst as usize, false) {
                        Ok(()) => {},
                        Err(e) => {
                            return Err(e);
                        },
                    }
                },
                Instruction::Sub(src1, src2, dst) => {
                    match self.arithmetic(Operation::Add, src1 as usize, src2 as usize, dst as usize, true) {
                        Ok(()) => {},
                        Err(e) => {
                            return Err(e);
                        },
                    }
                },
                Instruction::Xor(src1, src2, dst) => {
                    match self.arithmetic(Operation::Xor, src1 as usize, src2 as usize, dst as usize, false) {
                        Ok(()) => {},
                        Err(e) => {
                            return Err(e);
                        },
                    }
                },
                Instruction::Jump(addr) => {
                    self.pc = addr as usize;
                    continue ;
                },
                Instruction::JumpIf(cond, addr) => {
                    if (cond as usize) >= self.registers.len() {
                        return Err(FskcError::Custom("invalid register".to_owned()));
                    }
                    let nonzero = !crate::holographic::compute::all_zero(&self.registers[cond as usize]);
                    if nonzero {
                        self.pc = addr as usize;
                        continue ;
                    }
                },
                Instruction::Halt => {
                    return Ok(());
                },
            }
            if self.pc >= usize::MAX {
                return Err(FskcError::Custom("program counter overflow".to_owned()));
            }
            self.pc = self.pc + 1;
        }
        Err(FskcError::Custom("step budget exhausted".to_owned()))
    }

    /// The state of a register.
    pub fn get_register(&self, reg: u8) -> (r: &[u8])
        requires
            self.wf(),
            (reg as int) < 16,
        ensures
            r@ == self.spec_registers()[reg as int],
    {
        self.registers[reg as usize].as_slice()
    }

    /// The state of a memory word.
    pub fn get_memory(&self, addr: u8) -> (r: &[u8])
        requires
            self.wf(),
            (addr as int) < self.spec_memory().len(),
        ensures
            r@ == self.spec_memory()[addr as int],
    {
        self.memory[addr as usize].as_slice()
    }

    /// Load normalized data into a memory word: the data passes through
    /// the compute engine once before it is stored. Succeeds exactly on
    /// an in-range address and a 32-byte value.
    pub fn load_data(&mut self, addr: u8, data: &[u8]) -> (r: Result<(), FskcError>)
        requires
            old(self).wf(),
        ensures
            final(self).wf(),
            final(self).spec_registers() == old(self).spec_registers(),
            final(self).spec_program() == old(self).spec_program(),
            final(self).spec_pc() == old(self).spec_pc(),
            r is Ok <==> ((addr as int) < old(self).spec_memory().len() && data@.len() == 32),
            r is Ok ==> final(self).spec_memory() == old(self).spec_memory().update(
                addr as int,
                spec_normalize(data@),
            ),
            r is Err ==> final(self).spec_memory() == old(self).spec_memory(),
    {
        if (addr as usize) >= self.memory.len() {
            return Err(FskcError::Custom("invalid memory address".to_owned()));
        }
        let owned = copy_slice(data);
        let normalized = match self.normalize(&owned) {
            Ok(v) => v,
            Err(e) => {
                return Err(e);
            },
        };
        if normalized.len() != 32 {
            return Err(FskcError::Custom("invalid data size".to_owned()));
        }
        proof {
            assert(word_views(self.memory@).len() == word_views(old(self).memory@).len());
            assert(self.memory@.len() == word_views(self.memory@).len());
        }
        let _old_word = self.memory.remove(addr as usize);
        self.memory.insert(addr as usize, normalized);
        proof {
            assert forall|j: int|
                0 <= j < self.spec_memory().len() implies (#[trigger] self.spec_memory()[j]).len()
                == 32 by {
                if j != addr as int {
                    assert(self.spec_memory()[j] == old(self).spec_memory()[j]);
                }
            }
        }
        Ok(())
    }

    /// Pass a value through the compute engine: load it, add the
    /// register to itself once, and read the result back.
    fn normalize(&mut self, value: &Vec<u8>) -> (r: Result<Vec<u8>, FskcError>)
        requires
            old(self).wf(),
        ensures
            final(self).wf(),
            final(self).spec_registers() == old(self).spec_registers(),
            final(self).spec_memory() == old(self).spec_memory(),
            final(self).spec_program() == old(self).spec_program(),
            final(self).spec_pc() == old(self).spec_pc(),
            r is Ok,
            r matches Ok(v) ==> v@ == spec_normalize(value@),
            r matches Ok(v) ==> v@.len() == value@.len(),
    {
        match self.compute.load(0, value) {
            Ok(()) => {},
            Err(e) => {
                return Err(e);
            },
        }
        match self.compute.compute(Operation::Add, 0, 0) {
            Ok(()) => {},
            Err(e) => {
                return Err(e);
            },
        }
        self.compute.read(0)
    }

    /// Decode the program word at an index.
    fn decode_instruction(&self, idx: usize) -> (r: Instruction)
        requires
            (idx as int) < self.spec_program().len(),
        ensures
            r == spec_decode_word(self.spec_program()[idx as int]),
    {
        let bytes = &self.program[idx];
        if bytes.len() < 4 {
            return Instruction::Halt;
        }
        let op = bytes[0];
        if op == 0 {
            Instruction::Load(bytes[1], bytes[2])
        } else if op == 1 {
            Instruction::Store(bytes[1], bytes[2])
        } else if op == 2 {
            Instruction::Move(bytes[1], bytes[2])
        } else if op == 3 {
            Instruction::Add(bytes[1], bytes[2], bytes[3])
        } else if op == 4 {
            Instruction::Sub(bytes[1], bytes[2], bytes[3])
        } else if op == 5 {
            Instruction::Xor(bytes[1], bytes[2], bytes[3])
        } else if op == 6 {
            Instruction::Jump(bytes[1])
        } else if op == 7 {
            Instruction::JumpIf(bytes[1], bytes[2])
        } else {
            Instruction::Halt
        }
    }

    /// Move a normalized word between a register and a memory word:
    /// the destination receives the normalized source, and nothing else
    /// changes. Fails exactly on an out-of-range index, changing
    /// nothing.
    fn move_word(&mut self, kind: MoveKind, src: usize, dst: usize) -> (r: Result<(), FskcError>)
        requires
            old(self).wf(),
        ensures
            final(self).wf(),
            final(self).spec_program() == old(self).spec_program(),
            final(self).spec_pc() == old(self).spec_pc(),
            kind is MemToReg ==> (r is Ok <==> ((src as int) < old(self).spec_memory().len() && dst
                < 16)),
            kind is RegToMem ==> (r is Ok <==> (src < 16 && (dst as int) < old(
                self,
            ).spec_memory().len())),
            kind is RegToReg ==> (r is Ok <==> (src < 16 && dst < 16)),
            r is Err ==> (final(self).spec_registers() == old(self).spec_registers()
                && final(self).spec_memory() == old(self).spec_memory()),
            r is Ok && kind is MemToReg ==> final(self).spec_registers() == old(
                self,
            ).spec_registers().update(dst as int, spec_normalize(old(self).spec_memory()[src as int]))
                && final(self).spec_memory() == old(self).spec_memory(),
            r is Ok && kind is RegToMem ==> final(self).spec_memory() == old(
                self,
            ).spec_memory().update(dst as int, spec_normalize(old(self).spec_registers()[src as int]))
                && final(self).spec_registers() == old(self).spec_registers(),
            r is Ok && kind is RegToReg ==> final(self).spec_registers() == old(
                self,
            ).spec_registers().update(
                dst as int,
                spec_normalize(old(self).spec_registers()[src as int]),
            ) && final(self).spec_memory() == old(self).spec_memory(),
    {
        let source: Vec<u8> = match kind {
            MoveKind::MemToReg => {
                if src >= self.memory.len() {
                    return Err(FskcError::Custom("invalid memory address".to_owned()));
                }
                let v = copy_slice(self.memory[src].as_slice());
                proof {
                    assert(v@ == self.spec_memory()[src as int]);
                    assert(v@.len() == 32);
                }
                v
            },
            _ => {
                if src >= self.registers.len() {
                    return Err(FskcError::Custom("invalid register".to_owned()));
                }
                let v = copy_slice(self.registers[src].as_slice());
                proof {
                    assert(v@ == self.spec_registers()[src as int]);
                    assert(v@.len() == 32);
                }
                v
            },
        };
        let normalized = match self.normalize(&source) {
            Ok(v) => v,
            Err(e) => {
                return Err(e);
            },
        };
        if normalized.len() != 32 {
            return Err(FskcError::Custom("invalid data size".to_owned()));
        }
        proof {
            assert(word_views(self.memory@).len() == word_views(old(self).memory@).len());
            assert(self.memory@.len() == word_views(self.memory@).len());
            assert(word_views(self.registers@).len() == word_views(old(self).registers@).len());
            assert(self.registers@.len() == word_views(self.registers@).len());
        }
        match kind {
            MoveKind::RegToMem => {
                if dst >= self.memory.len() {
                    return Err(FskcError::Custom("invalid memory address".to_owned()));
                }
                let _old_word = self.memory.remove(dst);
                self.memory.insert(dst, normalized);
                proof {
                    assert forall|j: int|
                        0 <= j < self.spec_memory().len() implies (
                        #[trigger] self.spec_memory()[j]).len() == 32 by {
                        if j != dst as int {
                            assert(self.spec_memory()[j] == old(self).spec_memory()[j]);
                        }
                    }
                }
            },
            _ => {
                if dst >= self.registers.len() {
                    return Err(FskcError::Custom("invalid register".to_owned()));
                }
                let _old_word = self.registers.remove(dst);
                self.registers.insert(dst, normalized);
                proof {
                    assert forall|j: int|
                        0 <= j < self.spec_registers().len() implies (
                        #[trigger] self.spec_registers()[j]).len() == 32 by {
                        if j != dst as int {
                            assert(self.spec_registers()[j] == old(self).spec_registers()[j]);
                        }
                    }
                }
            },
        }
        Ok(())
    }

    /// Run a register-to-register operation through the compute engine,
    /// XORing the result with itself afterwards for the subtraction
    /// form: the destination receives `spec_vm_arith` of the sources.
    /// Fails exactly on an out-of-range register, changing nothing.
    fn arithmetic(&mut self, op: Operation, src1: usize, src2: usize, dst: usize, negate: bool) -> (r:
        Result<(), FskcError>)
        requires
            old(self).wf(),
            op is Add || op is Xor,
        ensures
            final(self).wf(),
            final(self).spec_program() == old(self).spec_program(),
            final(self).spec_pc() == old(self).spec_pc(),
            final(self).spec_memory() == old(self).spec_memory(),
            r is Ok <==> (src1 < 16 && src2 < 16 && dst < 16),
            r is Err ==> final(self).spec_registers() == old(self).spec_registers(),
            r is Ok ==> final(self).spec_registers() == old(self).spec_registers().update(
                dst as int,
                spec_vm_arith(
                    op,
                    negate,
                    old(self).spec_registers()[src1 as int],
                    old(self).spec_registers()[src2 as int],
                ),
            ),
    {
        if src1 >= self.registers.len() || src2 >= self.registers.len() || dst
            >= self.registers.len() {
            return Err(FskcError::Custom("invalid register".to_owned()));
        }
        let op1 = copy_slice(self.registers[src1].as_slice());
        let op2 = copy_slice(self.registers[src2].as_slice());
        proof {
            assert(op1@ == old(self).spec_registers()[src1 as int]);
            assert(op2@ == old(self).spec_registers()[src2 as int]);
            assert(op1@.len() == 32);
            assert(op2@.len() == 32);
        }
        let op1n = match self.normalize(&op1) {
            Ok(v) => v,
            Err(e) => {
                return Err(e);
            },
        };
        let op2n = match self.normalize(&op2) {
            Ok(v) => v,
            Err(e) => {
                return Err(e);
            },
        };
        match self.compute.load(0, &op1n) {
            Ok(()) => {},
            Err(e) => {
                return Err(e);
            },
        }
        match self.compute.load(1, &op2n) {
            Ok(()) => {},
            Err(e) => {
                return Err(e);
            },
        }
        proof {
            assert(self.compute.spec_plain(0) == op1n@);
            assert(self.compute.spec_plain(1) == op2n@);
        }
        match self.compute.compute(op, 0, 1) {
            Ok(()) => {},
            Err(e) => {
                return Err(e);
            },
        }
        if negate {
            match self.compute.compute(Operation::Xor, 0, 0) {
                Ok(()) => {},
                Err(e) => {
                    return Err(e);
                },
            }
        }
        let result = match self.compute.read(0) {
            Ok(v) => v,
            Err(e) => {
                return Err(e);
            },
        };
        proof {
            assert(result@ == spec_vm_arith(
                op,
                negate,
                old(self).spec_registers()[src1 as int],
                old(self).spec_registers()[src2 as int],
            ));
        }
        if result.len() != 32 {
            return Err(FskcError::Custom("invalid data size".to_owned()));
        }
        let _old_word = self.registers.remove(dst);
        self.registers.insert(dst, result);
        proof {
            assert(self.spec_registers() =~= old(self).spec_registers().update(
                dst as int,
                spec_vm_arith(
                    op,
                    negate,
                    old(self).spec_registers()[src1 as int],
                    old(self).spec_registers()[src2 as int],
                ),
            ));
            assert forall|j: int|
                0 <= j < self.spec_registers().len() implies (#[trigger] self.spec_registers()[j]).len()
                == 32 by {
                if j != dst as int {
                    assert(self.spec_registers()[j] == old(self).spec_registers()[j]);
                }
            }
        }
        Ok(())
    }
}

/// The direction of a word move.
enum MoveKind {
    MemToReg,
    RegToMem,
    RegToReg,
}

} // verus!
