//! A protected execution context: registers, protected memory regions
//! with access levels, and instruction execution in a clear or a blocked
//! mode.
use crate::crypto::xor_bytes;
use crate::holographic::compute::{
    add_bytes, all_zero, and_bytes, or_bytes, HomomorphicCompute, Operation,
};
use crate::microcontroller::instructions::{Instruction, Register, StatusFlags};
use crate::microcontroller::memory::{copy_slice, wf_words};
use crate::FskcError;
use vstd::prelude::*;

verus! {

/// The general-purpose register state of the context.
#[derive(Debug)]
pub struct RegisterState {
    registers: Vec<Vec<u8>>,
    flags: StatusFlags,
}

impl RegisterState {
    /// The registers' contents.
    pub closed spec fn spec_registers(&self) -> Seq<Seq<u8>> {
        self.registers@.map(|i: int, r: Vec<u8>| r@)
    }

    /// The status flags.
    pub closed spec fn spec_flags(&self) -> StatusFlags {
        self.flags
    }

    /// Every register holds a 32-byte word.
    pub open spec fn wf(&self) -> bool {
        wf_words(self.spec_registers(), 32)
    }

    /// Create a register state of `num_registers` 32-byte registers.
    pub fn new(num_registers: usize) -> (r: Self)
        ensures
            r.wf(),
            r.spec_registers().len() == num_registers,
            r.spec_flags() == (StatusFlags { zero: false, negative: false }),
    {
        let mut registers: Vec<Vec<u8>> = Vec::new();
        let mut i: usize = 0;
        while i < num_registers
            invariant
                i <= num_registers,
                registers@.len() == i,
                forall|j: int| 0 <= j < i ==> (#[trigger] registers@[j])@.len() == 32,
            decreases num_registers - i,
        {
            let w: Vec<u8> = vec![0u8; 32];
            registers.push(w);
            i = i + 1;
        }
        RegisterState { registers, flags: StatusFlags::new() }
    }

    /// Read a register's value; fails exactly on an out-of-range
    /// register.
    pub fn read(&self, reg: Register) -> (r: Result<&[u8], FskcError>)
        ensures
            r is Ok <==> (reg.0 as int) < self.spec_registers().len(),
            r matches Ok(s) ==> s@ == self.spec_registers()[reg.0 as int],
    {
        let idx = reg.index();
        if idx >= self.registers.len() {
            return Err(FskcError::Custom("invalid register".to_owned()));
        }
        Ok(self.registers[idx].as_slice())
    }

    /// Write a register's value; fails exactly on an out-of-range
    /// register or a value whose size differs from the register's.
    pub fn write(&mut self, reg: Register, data: &[u8]) -> (r: Result<(), FskcError>)
        ensures
            final(self).spec_flags() == old(self).spec_flags(),
            final(self).spec_registers().len() == old(self).spec_registers().len(),
            old(self).wf() ==> final(self).wf(),
            r is Ok <==> ((reg.0 as int) < old(self).spec_registers().len() && data@.len() == old(
                self,
            ).spec_registers()[reg.0 as int].len()),
            r is Ok ==> final(self).spec_registers() == old(self).spec_registers().update(
                reg.0 as int,
                data@,
            ),
            r is Err ==> final(self).spec_registers() == old(self).spec_registers(),
    {
        let idx = reg.index();
        if idx >= self.registers.len() {
            return Err(FskcError::Custom("invalid register".to_owned()));
        }
        if data.len() != self.registers[idx].len() {
            return Err(FskcError::Custom("invalid data size".to_owned()));
        }
        let word = copy_slice(data);
        let _old_word = self.registers.remove(idx);
        self.registers.insert(idx, word);
        proof {
            assert(self.spec_registers() =~= old(self).spec_registers().update(reg.0 as int, data@));
            if old(self).wf() {
                assert forall|i: int|
                    0 <= i < self.spec_registers().len() implies (#[trigger] self.spec_registers()[i]).len()
                    == 32 by {
                    if i != reg.0 as int {
                        assert(self.spec_registers()[i] == old(self).spec_registers()[i]);
                    } else {
                        assert(self.spec_registers()[i] == data@);
                        assert(old(self).spec_registers()[i].len() == 32);
                    }
                }
            }
        }
        Ok(())
    }

    /// The status flags.
    pub fn flags(&self) -> (r: StatusFlags)
        ensures
            r == self.spec_flags(),
    {
        self.flags
    }

    /// Set the status flags.
    pub fn set_flags(&mut self, flags: StatusFlags)
        ensures
            final(self).spec_flags() == flags,
            final(self).spec_registers() == old(self).spec_registers(),
            old(self).wf() ==> final(self).wf(),
    {
        self.flags = flags;
    }
}

/// The execution mode of the enclave.
#[derive(Debug, Clone, PartialEq, Eq, Structural)]
pub enum ExecutionMode {
    /// Operations run in plaintext.
    Clear,
    /// Operations run homomorphically.
    Blocked,
}

/// The protection level of a memory region.
#[derive(Debug, Clone)]
pub enum ProtectionLevel {
    /// Accessible in any mode.
    Unprotected,
    /// Accessible only in blocked mode.
    Protected,
    /// Accessible in blocked mode, and only for the listed instructions.
    Restricted(Vec<Instruction>),
}

/// A protected memory region: 32-byte words covering the addresses from
/// `start` (inclusive) to `end` (exclusive).
#[derive(Debug)]
pub struct MemoryRegion {
    /// Start address of the region.
    pub start: usize,
    /// End address of the region.
    pub end: usize,
    /// The region's protection level.
    pub protection: ProtectionLevel,
    data: Vec<Vec<u8>>,
}

impl MemoryRegion {
    /// The stored words.
    pub closed spec fn spec_data(&self) -> Seq<Seq<u8>> {
        self.data@.map(|i: int, w: Vec<u8>| w@)
    }

    /// The region's start address.
    pub closed spec fn spec_start(&self) -> int {
        self.start as int
    }

    /// The region's end address.
    pub closed spec fn spec_end(&self) -> int {
        self.end as int
    }

    /// The region's protection level.
    pub closed spec fn spec_protection(&self) -> ProtectionLevel {
        self.protection
    }

    /// One 32-byte word per covered address.
    pub open spec fn wf(&self) -> bool {
        &&& self.spec_start() <= self.spec_end()
        &&& self.spec_data().len() == self.spec_end() - self.spec_start()
        &&& wf_words(self.spec_data(), 32)
    }

    /// Create a region covering `start..end` at the given protection
    /// level.
    pub fn new(start: usize, end: usize, protection: ProtectionLevel) -> (r: Self)
        requires
            start <= end,
        ensures
            r.wf(),
            r.spec_start() == start,
            r.spec_end() == end,
            r.spec_protection() == protection,
    {
        let size = end - start;
        let mut data: Vec<Vec<u8>> = Vec::new();
        let mut i: usize = 0;
        while i < size
            invariant
                i <= size,
                data@.len() == i,
                forall|j: int| 0 <= j < i ==> (#[trigger] data@[j])@.len() == 32,
            decreases size - i,
        {
            let w: Vec<u8> = vec![0u8; 32];
            data.push(w);
            i = i + 1;
        }
        MemoryRegion { start, end, protection, data }
    }

    /// Whether the region covers an address.
    pub fn contains(&self, addr: usize) -> (r: bool)
        ensures
            r == (self.spec_start() <= addr < self.spec_end()),
    {
        addr >= self.start && addr < self.end
    }

    /// Read the word at an offset; fails exactly when the offset is out
    /// of range.
    pub fn read(&self, offset: usize) -> (r: Result<&[u8], FskcError>)
        ensures
            r is Ok <==> (offset as int) < self.spec_data().len(),
            r matches Ok(s) ==> s@ == self.spec_data()[offset as int],
    {
        if offset >= self.data.len() {
            return Err(FskcError::Custom("invalid memory access".to_owned()));
        }
        Ok(self.data[offset].as_slice())
    }

    /// Write the word at an offset; fails exactly when the offset is out
    /// of range or the data's size differs from the word's.
    pub fn write(&mut self, offset: usize, data: &[u8]) -> (r: Result<(), FskcError>)
        ensures
            final(self).spec_start() == old(self).spec_start(),
            final(self).spec_end() == old(self).spec_end(),
            final(self).spec_protection() == old(self).spec_protection(),
            final(self).spec_data().len() == old(self).spec_data().len(),
            old(self).wf() ==> final(self).wf(),
            r is Ok <==> ((offset as int) < old(self).spec_data().len() && data@.len() == old(
                self,
            ).spec_data()[offset as int].len()),
            r is Ok ==> final(self).spec_data() == old(self).spec_data().update(
                offset as int,
                data@,
            ),
            r is Err ==> final(self).spec_data() == old(self).spec_data(),
    {
        if offset >= self.data.len() {
            return Err(FskcError::Custom("invalid memory access".to_owned()));
        }
        if data.len() != self.data[offset].len() {
            return Err(FskcError::Custom("invalid data size".to_owned()));
        }
        let word = copy_slice(data);
        let _old_word = self.data.remove(offset);
        self.data.insert(offset, word);
        proof {
            assert(self.spec_data() =~= old(self).spec_data().update(offset as int, data@));
            if old(self).wf() {
                assert forall|i: int|
                    0 <= i < self.spec_data().len() implies (#[trigger] self.spec_data()[i]).len()
                    == 32 by {
                    if i != offset as int {
                        assert(self.spec_data()[i] == old(self).spec_data()[i]);
                    } else {
                        assert(self.spec_data()[i] == data@);
                        assert(old(self).spec_data()[i].len() == 32);
                    }
                }
            }
        }
        Ok(())
    }
}

/// Whether an instruction appears in a list.
fn instruction_in(list: &Vec<Instruction>, instr: &Instruction) -> (r: bool)
    ensures
        r == list@.contains(*instr),
{
    let mut i: usize = 0;
    while i < list.len()
        invariant
            i <= list@.len(),
            forall|j: int| 0 <= j < i ==> list@[j] != *instr,
        decreases list@.len() - i,
    {
        if list[i] == *instr {
            proof {
                assert(list@.contains(*instr));
            }
            return true;
        }
        i = i + 1;
    }
    proof {
        assert(!list@.contains(*instr));
    }
    false
}

/// The memory address an instruction touches, if any.
pub open spec fn spec_instruction_address(instr: Instruction) -> Option<int> {
    match instr {
        Instruction::Load(_, addr) => Some(addr.0 as int),
        Instruction::Store(addr, _) => Some(addr.0 as int),
        _ => None,
    }
}

/// Region well-formedness carries over to an equal region sequence.
proof fn lemma_regions_wf_transfer(pre: Seq<MemoryRegion>, post: Seq<MemoryRegion>)
    requires
        post == pre,
        forall|i: int| 0 <= i < pre.len() ==> (#[trigger] pre[i]).wf(),
    ensures
        forall|i: int| 0 <= i < post.len() ==> (#[trigger] post[i]).wf(),
{
    assert forall|i: int| 0 <= i < post.len() implies (#[trigger] post[i]).wf() by {
        assert(pre[i].wf());
    }
}

/// The index of the first region covering an address, if any.
pub open spec fn spec_find_region(regions: Seq<MemoryRegion>, addr: int) -> Option<int>
    decreases regions.len(),
{
    if regions.len() == 0 {
        None
    } else if regions.first().spec_start() <= addr < regions.first().spec_end() {
        Some(0int)
    } else {
        match spec_find_region(regions.drop_first(), addr) {
            Some(i) => Some(i + 1),
            None => None,
        }
    }
}

/// The access rule: unmapped addresses are free; an unprotected region
/// is free; a protected region needs blocked mode; a restricted region
/// needs blocked mode and a listed instruction.
pub open spec fn spec_access_allowed(
    regions: Seq<MemoryRegion>,
    mode: ExecutionMode,
    addr: int,
    instr: Option<Instruction>,
) -> bool {
    match spec_find_region(regions, addr) {
        None => true,
        Some(i) => match regions[i].spec_protection() {
            ProtectionLevel::Unprotected => true,
            ProtectionLevel::Protected => mode == ExecutionMode::Blocked,
            ProtectionLevel::Restricted(allowed) => mode == ExecutionMode::Blocked && (match instr {
                Some(ins) => allowed@.contains(ins),
                None => false,
            }),
        },
    }
}

/// The operation rule: blocked mode allows everything; clear mode allows
/// only memory operations whose address lies in no region or in an
/// unprotected one.
pub open spec fn spec_operation_allowed(
    regions: Seq<MemoryRegion>,
    mode: ExecutionMode,
    instr: Instruction,
) -> bool {
    match mode {
        ExecutionMode::Blocked => true,
        ExecutionMode::Clear => match spec_instruction_address(instr) {
            None => false,
            Some(addr) => match spec_find_region(regions, addr) {
                None => true,
                Some(i) => regions[i].spec_protection() is Unprotected,
            },
        },
    }
}

/// The first-match search determines `spec_find_region`: an index that
/// covers the address with no earlier cover is the one found, and if no
/// index covers it nothing is found.
proof fn lemma_find_region_agrees(regions: Seq<MemoryRegion>, addr: int, found: Option<int>)
    requires
        match found {
            Some(i) => 0 <= i < regions.len() && regions[i].spec_start() <= addr
                < regions[i].spec_end() && (forall|j: int|
                0 <= j < i ==> !((#[trigger] regions[j]).spec_start() <= addr
                    < regions[j].spec_end())),
            None => forall|j: int|
                0 <= j < regions.len() ==> !((#[trigger] regions[j]).spec_start() <= addr
                    < regions[j].spec_end()),
        },
    ensures
        spec_find_region(regions, addr) == found,
    decreases regions.len(),
{
    if regions.len() > 0 {
        if regions.first().spec_start() <= addr < regions.first().spec_end() {
            assert(found == Some(0int));
        } else {
            match found {
                Some(i) => {
                    assert(i >= 1);
                    lemma_find_region_agrees(regions.drop_first(), addr, Some(i - 1));
                },
                None => {
                    lemma_find_region_agrees(regions.drop_first(), addr, None);
                },
            }
        }
    }
}

/// A block execution context: a mode, protected regions, registers, and
/// the compute engine for blocked-mode arithmetic.
pub struct BlockContext {
    /// The current execution mode.
    pub mode: ExecutionMode,
    /// The program counter.
    pub pc: usize,
    /// The current block's start address.
    pub start_addr: usize,
    /// The current block's end address.
    pub end_addr: usize,
    /// The protected memory regions.
    pub regions: Vec<MemoryRegion>,
    compute: HomomorphicCompute,
    registers: RegisterState,
}

impl BlockContext {
    /// The register state.
    pub closed spec fn spec_registers(&self) -> RegisterState {
        self.registers
    }

    /// The current execution mode.
    pub closed spec fn spec_mode(&self) -> ExecutionMode {
        self.mode
    }

    /// The current block bounds and program counter.
    pub closed spec fn spec_pc(&self) -> int {
        self.pc as int
    }

    /// The registered regions.
    pub closed spec fn spec_regions(&self) -> Seq<MemoryRegion> {
        self.regions@
    }

    /// Whether the compute engine is well formed.
    pub closed spec fn spec_compute_wf(&self) -> bool {
        self.compute.wf()
    }

    /// The context's invariant: sound regions, 16 sound registers, a
    /// sound compute engine.
    pub open spec fn wf(&self) -> bool {
        &&& self.spec_compute_wf()
        &&& self.spec_registers().wf()
        &&& self.spec_registers().spec_registers().len() == 16
        &&& forall|i: int|
            0 <= i < self.spec_regions().len() ==> (#[trigger] self.spec_regions()[i]).wf()
    }

    /// Create a context in clear mode with 16 registers and no regions.
    pub fn new(compute: HomomorphicCompute) -> (r: Self)
        requires
            compute.wf(),
        ensures
            r.wf(),
            r.spec_mode() == ExecutionMode::Clear,
            r.spec_pc() == 0,
            r.spec_regions().len() == 0,
    {
        BlockContext {
            mode: ExecutionMode::Clear,
            pc: 0,
            start_addr: 0,
            end_addr: 0,
            regions: Vec::new(),
            compute,
            registers: RegisterState::new(16),
        }
    }

    /// Enter blocked mode for the block covering `start..end`.
    pub fn enter_blocked_mode(&mut self, start: usize, end: usize) -> (r: Result<(), FskcError>)
        ensures
            r is Ok,
            final(self).spec_mode() == ExecutionMode::Blocked,
            final(self).spec_regions() == old(self).spec_regions(),
            final(self).spec_registers() == old(self).spec_registers(),
            old(self).wf() ==> final(self).wf(),
    {
        self.mode = ExecutionMode::Blocked;
        self.start_addr = start;
        self.end_addr = end;
        proof {
            if old(self).wf() {
                assert(self.spec_regions() == old(self).spec_regions());
                assert forall|i: int|
                    0 <= i < self.spec_regions().len() implies (#[trigger] self.spec_regions()[i]).wf() by {
                    assert(old(self).spec_regions()[i].wf());
                }
                assert(self.wf());
            }
        }
        Ok(())
    }

    /// Leave blocked mode.
    pub fn exit_blocked_mode(&mut self) -> (r: Result<(), FskcError>)
        ensures
            r is Ok,
            final(self).spec_mode() == ExecutionMode::Clear,
            final(self).spec_regions() == old(self).spec_regions(),
            final(self).spec_registers() == old(self).spec_registers(),
            old(self).wf() ==> final(self).wf(),
    {
        self.mode = ExecutionMode::Clear;
        self.start_addr = 0;
        self.end_addr = 0;
        proof {
            if old(self).wf() {
                assert(self.spec_regions() == old(self).spec_regions());
                assert forall|i: int|
                    0 <= i < self.spec_regions().len() implies (#[trigger] self.spec_regions()[i]).wf() by {
                    assert(old(self).spec_regions()[i].wf());
                }
                assert(self.wf());
            }
        }
        Ok(())
    }

    /// Add a protected memory region.
    pub fn add_region(&mut self, region: MemoryRegion)
        requires
            region.wf(),
        ensures
            final(self).spec_regions() == old(self).spec_regions().push(region),
            final(self).spec_mode() == old(self).spec_mode(),
            final(self).spec_registers() == old(self).spec_registers(),
            old(self).wf() ==> final(self).wf(),
    {
        self.regions.push(region);
        proof {
            if old(self).wf() {
                assert forall|i: int|
                    0 <= i < self.spec_regions().len() implies (#[trigger] self.spec_regions()[i]).wf() by {
                    if i < old(self).spec_regions().len() {
                        assert(old(self).spec_regions()[i].wf());
                    } else {
                        assert(self.spec_regions()[i] == region);
                    }
                }
            }
        }
    }

    /// The index of the region containing an address, if any: the first
    /// such region.
    fn find_region_index(&self, addr: usize) -> (r: Option<usize>)
        ensures
            r matches Some(i) ==> (i as int) < self.spec_regions().len() && self.spec_regions()[i as int].spec_start()
                <= addr < self.spec_regions()[i as int].spec_end(),
            r matches Some(i) ==> forall|j: int|
                0 <= j < i ==> !((#[trigger] self.spec_regions()[j]).spec_start() <= addr
                    < self.spec_regions()[j].spec_end()),
            r is None ==> forall|i: int|
                0 <= i < self.spec_regions().len() ==> !((#[trigger] self.spec_regions()[i]).spec_start() <= addr
                    < self.spec_regions()[i].spec_end()),
    {
        let mut i: usize = 0;
        while i < self.regions.len()
            invariant
                i <= self.regions@.len(),
                forall|j: int|
                    0 <= j < i ==> !((#[trigger] self.regions@[j]).spec_start() <= addr
                        < self.regions@[j].spec_end()),
            decreases self.regions@.len() - i,
        {
            if self.regions[i].contains(addr) {
                return Some(i);
            }
            i = i + 1;
        }
        None
    }

    /// The region containing an address, if any.
    pub fn find_region(&self, addr: usize) -> (r: Option<&MemoryRegion>)
        ensures
            r matches Some(region) ==> region.spec_start() <= addr < region.spec_end(),
            r is None ==> forall|i: int|
                0 <= i < self.spec_regions().len() ==> !((#[trigger] self.spec_regions()[i]).spec_start()
                    <= addr < self.spec_regions()[i].spec_end()),
    {
        match self.find_region_index(addr) {
            Some(i) => Some(&self.regions[i]),
            None => None,
        }
    }

    /// Whether an operation is allowed in the current mode: blocked mode
    /// allows everything; clear mode allows only memory operations that
    /// touch unmapped or unprotected memory.
    pub fn check_operation(&self, instr: &Instruction) -> (r: bool)
        ensures
            r == spec_operation_allowed(self.spec_regions(), self.spec_mode(), *instr),
    {
        match self.mode {
            ExecutionMode::Blocked => true,
            ExecutionMode::Clear => {
                let addr: usize = match instr {
                    Instruction::Load(_, a) => a.value(),
                    Instruction::Store(a, _) => a.value(),
                    _ => {
                        return false;
                    },
                };
                match self.find_region_index(addr) {
                    Some(idx) => {
                        proof {
                            lemma_find_region_agrees(
                                self.spec_regions(),
                                addr as int,
                                Some(idx as int),
                            );
                        }
                        match self.regions[idx].protection {
                            ProtectionLevel::Unprotected => true,
                            _ => false,
                        }
                    },
                    None => {
                        proof {
                            lemma_find_region_agrees(self.spec_regions(), addr as int, None);
                        }
                        true
                    },
                }
            },
        }
    }

    /// Whether a memory access at an address is allowed, optionally for
    /// a specific instruction: unprotected regions always, protected
    /// regions only in blocked mode, restricted regions only in blocked
    /// mode and for a listed instruction; unmapped addresses always.
    pub fn check_access(&self, addr: usize, instr: Option<Instruction>) -> (r: bool)
        ensures
            r == spec_access_allowed(self.spec_regions(), self.spec_mode(), addr as int, instr),
    {
        match self.find_region_index(addr) {
            Some(idx) => {
                proof {
                    lemma_find_region_agrees(self.spec_regions(), addr as int, Some(idx as int));
                }
                let region = &self.regions[idx];
                match &region.protection {
                    ProtectionLevel::Unprotected => true,
                    ProtectionLevel::Protected => self.mode == ExecutionMode::Blocked,
                    ProtectionLevel::Restricted(allowed) => {
                        if self.mode != ExecutionMode::Blocked {
                            return false;
                        }
                        match instr {
                            Some(i) => instruction_in(allowed, &i),
                            None => false,
                        }
                    },
                }
            },
            None => {
                proof {
                    lemma_find_region_agrees(self.spec_regions(), addr as int, None);
                }
                true
            },
        }
    }

    /// Read the memory word at an address; fails when access is denied
    /// or the address is unmapped.
    pub fn read_memory(&self, addr: usize) -> (r: Result<&[u8], FskcError>)
        requires
            self.wf(),
        ensures
            r matches Ok(s) ==> s@.len() == 32,
    {
        if !self.check_access(addr, None) {
            return Err(FskcError::Custom("memory access denied".to_owned()));
        }
        match self.find_region_index(addr) {
            Some(i) => {
                let region = &self.regions[i];
                let offset = addr - region.start;
                let res = region.read(offset);
                proof {
                    if res is Ok {
                        assert(self.regions@[i as int].wf());
                    }
                }
                res
            },
            None => Err(FskcError::Custom("invalid memory access".to_owned())),
        }
    }

    /// Write the memory word at an address; fails when access is denied,
    /// the address is unmapped, or the data is not one word.
    pub fn write_memory(&mut self, addr: usize, data: &[u8]) -> (r: Result<(), FskcError>)
        requires
            old(self).wf(),
        ensures
            final(self).wf(),
            final(self).spec_mode() == old(self).spec_mode(),
            final(self).spec_registers() == old(self).spec_registers(),
    {
        if !self.check_access(addr, None) {
            return Err(FskcError::Custom("memory access denied".to_owned()));
        }
        match self.find_region_index(addr) {
            Some(i) => {
                let offset = addr - self.regions[i].start;
                let mut region = self.regions.remove(i);
                let res = region.write(offset, data);
                self.regions.insert(i, region);
                proof {
                    assert forall|j: int|
                        0 <= j < self.spec_regions().len() implies (#[trigger] self.spec_regions()[j]).wf() by {
                        if j != i as int {
                            assert(self.spec_regions()[j] == old(self).spec_regions()[j]);
                            assert(old(self).spec_regions()[j].wf());
                        } else {
                            assert(self.spec_regions()[j] == region);
                        }
                    }
                }
                res
            },
            None => Err(FskcError::Custom("invalid memory access".to_owned())),
        }
    }

    /// Execute an instruction in the current mode; refused operations
    /// fail.
    pub fn execute(&mut self, instr: Instruction) -> (r: Result<(), FskcError>)
        requires
            old(self).wf(),
        ensures
            final(self).wf(),
    {
        if !self.check_operation(&instr) {
            return Err(FskcError::Custom("operation not allowed in current mode".to_owned()));
        }
        match self.mode {
            ExecutionMode::Clear => self.execute_clear(instr),
            ExecutionMode::Blocked => self.execute_blocked(instr),
        }
    }

    /// Read two register operands as owned words.
    fn read_operands(&self, rs1: Register, rs2: Register) -> (r: Result<(Vec<u8>, Vec<u8>), FskcError>)
        requires
            self.wf(),
        ensures
            r matches Ok(p) ==> (p.0@.len() == 32 && p.1@.len() == 32),
    {
        let op1 = match self.registers.read(rs1) {
            Ok(s) => copy_slice(s),
            Err(e) => {
                return Err(e);
            },
        };
        let op2 = match self.registers.read(rs2) {
            Ok(s) => copy_slice(s),
            Err(e) => {
                return Err(e);
            },
        };
        Ok((op1, op2))
    }

    /// Store an arithmetic result: set the zero and negative flags from
    /// it, then write it to the destination register.
    fn store_result(&mut self, rd: Register, result: Vec<u8>) -> (r: Result<(), FskcError>)
        requires
            old(self).wf(),
            result@.len() == 32,
        ensures
            final(self).wf(),
            final(self).spec_mode() == old(self).spec_mode(),
            final(self).spec_regions() == old(self).spec_regions(),
    {
        let zero = all_zero(&result);
        let negative = result[0] & 0x80 != 0;
        let mut flags = self.registers.flags();
        flags.zero = zero;
        flags.negative = negative;
        self.registers.set_flags(flags);
        let res = self.registers.write(rd, result.as_slice());
        proof {
            lemma_regions_wf_transfer(old(self).spec_regions(), self.spec_regions());
        }
        res
    }

    /// Execute an instruction in clear mode: plaintext arithmetic.
    fn execute_clear(&mut self, instr: Instruction) -> (r: Result<(), FskcError>)
        requires
            old(self).wf(),
        ensures
            final(self).wf(),
    {
        match instr {
            Instruction::Load(rd, addr) => {
                let data = match self.read_memory(addr.value()) {
                    Ok(s) => copy_slice(s),
                    Err(e) => {
                        return Err(e);
                    },
                };
                let res = self.registers.write(rd, data.as_slice());
                proof {
                    lemma_regions_wf_transfer(old(self).spec_regions(), self.spec_regions());
                }
                res
            },
            Instruction::Store(addr, rs) => {
                let data = match self.registers.read(rs) {
                    Ok(s) => copy_slice(s),
                    Err(e) => {
                        return Err(e);
                    },
                };
                self.write_memory(addr.value(), data.as_slice())
            },
            Instruction::Add(rd, rs1, rs2) => {
                let (op1, op2) = match self.read_operands(rs1, rs2) {
                    Ok(p) => p,
                    Err(e) => {
                        return Err(e);
                    },
                };
                let (result, _carry) = add_bytes(&op1, &op2);
                self.store_result(rd, result)
            },
            Instruction::Xor(rd, rs1, rs2) => {
                let (op1, op2) = match self.read_operands(rs1, rs2) {
                    Ok(p) => p,
                    Err(e) => {
                        return Err(e);
                    },
                };
                let result = xor_bytes(op1.as_slice(), op2.as_slice());
                self.store_result(rd, result)
            },
            Instruction::And(rd, rs1, rs2) => {
                let (op1, op2) = match self.read_operands(rs1, rs2) {
                    Ok(p) => p,
                    Err(e) => {
                        return Err(e);
                    },
                };
                let result = and_bytes(&op1, &op2);
                self.store_result(rd, result)
            },
            Instruction::Or(rd, rs1, rs2) => {
                let (op1, op2) = match self.read_operands(rs1, rs2) {
                    Ok(p) => p,
                    Err(e) => {
                        return Err(e);
                    },
                };
                let result = or_bytes(&op1, &op2);
                self.store_result(rd, result)
            },
            Instruction::Jump(addr) => {
                self.pc = addr.value();
                proof {
                    lemma_regions_wf_transfer(old(self).spec_regions(), self.spec_regions());
                }
                Ok(())
            },
            Instruction::BranchEq(addr) => {
                if self.registers.flags().zero {
                    self.pc = addr.value();
                }
                proof {
                    lemma_regions_wf_transfer(old(self).spec_regions(), self.spec_regions());
                }
                Ok(())
            },
            _ => {
                proof {
                    lemma_regions_wf_transfer(old(self).spec_regions(), self.spec_regions());
                }
                Ok(())
            },
        }
    }

    /// Execute an instruction in blocked mode: arithmetic runs through
    /// the compute engine, and jumps must stay inside the block.
    fn execute_blocked(&mut self, instr: Instruction) -> (r: Result<(), FskcError>)
        requires
            old(self).wf(),
        ensures
            final(self).wf(),
    {
        match instr {
            Instruction::Load(rd, addr) => {
                let data = match self.read_memory(addr.value()) {
                    Ok(s) => copy_slice(s),
                    Err(e) => {
                        return Err(e);
                    },
                };
                let res = self.registers.write(rd, data.as_slice());
                proof {
                    lemma_regions_wf_transfer(old(self).spec_regions(), self.spec_regions());
                }
                res
            },
            Instruction::Store(addr, rs) => {
                let data = match self.registers.read(rs) {
                    Ok(s) => copy_slice(s),
                    Err(e) => {
                        return Err(e);
                    },
                };
                self.write_memory(addr.value(), data.as_slice())
            },
            Instruction::Add(rd, rs1, rs2) => self.blocked_op(Operation::Add, rd, rs1, rs2),
            Instruction::Xor(rd, rs1, rs2) => self.blocked_op(Operation::Xor, rd, rs1, rs2),
            Instruction::And(rd, rs1, rs2) => self.blocked_op(Operation::And, rd, rs1, rs2),
            Instruction::Or(rd, rs1, rs2) => self.blocked_op(Operation::Or, rd, rs1, rs2),
            Instruction::Jump(addr) => {
                let addr_val = addr.value();
                let res: Result<(), FskcError> = if addr_val >= self.start_addr && addr_val
                    < self.end_addr {
                    self.pc = addr_val;
                    Ok(())
                } else {
                    Err(FskcError::Custom("jump outside block".to_owned()))
                };
                proof {
                    lemma_regions_wf_transfer(old(self).spec_regions(), self.spec_regions());
                }
                res
            },
            Instruction::BranchEq(addr) => {
                let res: Result<(), FskcError> = if self.registers.flags().zero {
                    let addr_val = addr.value();
                    if addr_val >= self.start_addr && addr_val < self.end_addr {
                        self.pc = addr_val;
                        Ok(())
                    } else {
                        Err(FskcError::Custom("branch outside block".to_owned()))
                    }
                } else {
                    Ok(())
                };
                proof {
                    lemma_regions_wf_transfer(old(self).spec_regions(), self.spec_regions());
                }
                res
            },
            _ => {
                proof {
                    lemma_regions_wf_transfer(old(self).spec_regions(), self.spec_regions());
                }
                Ok(())
            },
        }
    }

    /// Run one blocked-mode register operation through the compute
    /// engine.
    fn blocked_op(&mut self, op: Operation, rd: Register, rs1: Register, rs2: Register) -> (r:
        Result<(), FskcError>)
        requires
            old(self).wf(),
        ensures
            final(self).wf(),
    {
        let (op1, op2) = match self.read_operands(rs1, rs2) {
            Ok(p) => p,
            Err(e) => {
                return Err(e);
            },
        };
        match self.compute.load(0, &op1) {
            Ok(()) => {},
            Err(e) => {
                proof {
                    lemma_regions_wf_transfer(old(self).spec_regions(), self.spec_regions());
                }
                return Err(e);
            },
        }
        match self.compute.load(1, &op2) {
            Ok(()) => {},
            Err(e) => {
                proof {
                    lemma_regions_wf_transfer(old(self).spec_regions(), self.spec_regions());
                }
                return Err(e);
            },
        }
        match self.compute.compute(op, 0, 1) {
            Ok(()) => {},
            Err(e) => {
                proof {
                    lemma_regions_wf_transfer(old(self).spec_regions(), self.spec_regions());
                }
                return Err(e);
            },
        }
        let result = match self.compute.read(0) {
            Ok(v) => v,
            Err(e) => {
                proof {
                    lemma_regions_wf_transfer(old(self).spec_regions(), self.spec_regions());
                }
                return Err(e);
            },
        };
        proof {
            lemma_regions_wf_transfer(old(self).spec_regions(), self.spec_regions());
        }
        if result.len() != 32 {
            return Err(FskcError::Custom("invalid data size".to_owned()));
        }
        self.store_result(rd, result)
    }
}

} // verus!
