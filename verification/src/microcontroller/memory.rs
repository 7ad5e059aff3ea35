//! The memory management unit: program bytes, a register file and data
//! memory, each addressed through one shared byte-address map.
use super::error::MemoryError;
use crate::FskcError;
use vstd::prelude::*;
use vstd::slice::slice_subrange;

verus! {

/// A memory segment: reads and writes at word offsets.
pub trait MemorySegment {
    /// Read the value at an offset.
    fn read(&self, offset: usize) -> Result<&[u8], FskcError>;

    /// Write a value at an offset.
    fn write(&mut self, offset: usize, data: &[u8]) -> Result<(), FskcError>;

    /// The segment's size in words.
    fn size(&self) -> usize;
}

/// Program memory: a flat byte array.
#[derive(Debug)]
pub struct ProgramMemory {
    data: Vec<u8>,
}

impl ProgramMemory {
    /// The program bytes.
    pub closed spec fn spec_data(&self) -> Seq<u8> {
        self.data@
    }

    /// Create a program memory of the given size, zero-filled.
    pub fn new(size: usize) -> (r: Self)
        ensures
            r.spec_data() == Seq::new(size as nat, |i: int| 0u8),
    {
        let r = ProgramMemory { data: vec![0u8; size] };
        proof {
            assert(r.spec_data() =~= Seq::new(size as nat, |i: int| 0u8));
        }
        r
    }

    /// Write one byte; fails exactly when the address is out of bounds.
    pub fn write_byte(&mut self, addr: usize, byte: u8) -> (r: Result<(), FskcError>)
        ensures
            r is Ok <==> (addr as int) < old(self).spec_data().len(),
            r is Ok ==> final(self).spec_data() == old(self).spec_data().update(addr as int, byte),
            r is Err ==> final(self).spec_data() == old(self).spec_data(),
    {
        if addr >= self.data.len() {
            return Err(
                (MemoryError::OutOfBounds { addr, size: self.data.len() }).into_fskc(),
            );
        }
        self.data.set(addr, byte);
        Ok(())
    }

    /// Read one byte; fails exactly when the address is out of bounds.
    pub fn read_byte(&self, addr: usize) -> (r: Result<u8, FskcError>)
        ensures
            r is Ok <==> (addr as int) < self.spec_data().len(),
            r matches Ok(b) ==> b == self.spec_data()[addr as int],
    {
        if addr >= self.data.len() {
            return Err(
                (MemoryError::OutOfBounds { addr, size: self.data.len() }).into_fskc(),
            );
        }
        Ok(self.data[addr])
    }

    /// The program memory's size in bytes.
    pub fn len(&self) -> (r: usize)
        ensures
            r == self.spec_data().len(),
    {
        self.data.len()
    }

    /// Whether the program memory is empty.
    pub fn is_empty(&self) -> (r: bool)
        ensures
            r == (self.spec_data().len() == 0),
    {
        self.data.is_empty()
    }
}

/// A word-addressed segment: fixed-size words.
#[derive(Debug)]
pub struct RegisterMemory {
    data: Vec<Vec<u8>>,
    word_size: usize,
}

/// A word-addressed data segment.
#[derive(Debug)]
pub struct DataMemory {
    data: Vec<Vec<u8>>,
    word_size: usize,
}

/// The views of a vector of words.
pub open spec fn word_views(v: Seq<Vec<u8>>) -> Seq<Seq<u8>> {
    v.map(|i: int, w: Vec<u8>| w@)
}

/// Every word has the segment's word size.
pub open spec fn wf_words(words: Seq<Seq<u8>>, word_size: int) -> bool {
    forall|i: int| 0 <= i < words.len() ==> (#[trigger] words[i]).len() == word_size
}

/// Build a zero-filled word store.
fn zero_words(size: usize, word_size: usize) -> (r: Vec<Vec<u8>>)
    ensures
        r@.len() == size,
        wf_words(word_views(r@), word_size as int),
        forall|i: int|
            0 <= i < size ==> #[trigger] word_views(r@)[i] =~= Seq::new(
                word_size as nat,
                |k: int| 0u8,
            ),
{
    let mut out: Vec<Vec<u8>> = Vec::new();
    let mut i: usize = 0;
    while i < size
        invariant
            i <= size,
            out@.len() == i,
            forall|j: int| 0 <= j < i ==> (#[trigger] out@[j])@.len() == word_size,
            forall|j: int|
                0 <= j < i ==> (#[trigger] out@[j])@ =~= Seq::new(word_size as nat, |k: int| 0u8),
        decreases size - i,
    {
        let w: Vec<u8> = vec![0u8; word_size];
        out.push(w);
        i = i + 1;
    }
    out
}

impl RegisterMemory {
    /// The stored words.
    pub closed spec fn spec_words(&self) -> Seq<Seq<u8>> {
        self.data@.map(|i: int, w: Vec<u8>| w@)
    }

    /// The word size.
    pub closed spec fn spec_word_size(&self) -> int {
        self.word_size as int
    }

    /// The segment's invariant.
    pub open spec fn wf(&self) -> bool {
        wf_words(self.spec_words(), self.spec_word_size())
    }

    /// Create a register file of `size` words of `word_size` bytes.
    pub fn new(size: usize, word_size: usize) -> (r: Self)
        ensures
            r.wf(),
            r.spec_words().len() == size,
            r.spec_word_size() == word_size,
    {
        RegisterMemory { data: zero_words(size, word_size), word_size }
    }
}

impl DataMemory {
    /// The stored words.
    pub closed spec fn spec_words(&self) -> Seq<Seq<u8>> {
        self.data@.map(|i: int, w: Vec<u8>| w@)
    }

    /// The word size.
    pub closed spec fn spec_word_size(&self) -> int {
        self.word_size as int
    }

    /// The segment's invariant.
    pub open spec fn wf(&self) -> bool {
        wf_words(self.spec_words(), self.spec_word_size())
    }

    /// Create a data memory of `size` words of `word_size` bytes.
    pub fn new(size: usize, word_size: usize) -> (r: Self)
        ensures
            r.wf(),
            r.spec_words().len() == size,
            r.spec_word_size() == word_size,
    {
        DataMemory { data: zero_words(size, word_size), word_size }
    }
}

impl MemorySegment for ProgramMemory {
    fn read(&self, offset: usize) -> Result<&[u8], FskcError> {
        if offset >= self.data.len() {
            return Err(
                (MemoryError::OutOfBounds { addr: offset, size: self.data.len() }).into_fskc(),
            );
        }
        Ok(slice_subrange(self.data.as_slice(), offset, offset + 1))
    }

    fn write(&mut self, offset: usize, data: &[u8]) -> Result<(), FskcError> {
        if offset >= self.data.len() {
            return Err(
                (MemoryError::OutOfBounds { addr: offset, size: self.data.len() }).into_fskc(),
            );
        }
        if data.len() == 0 {
            return Err(
                (MemoryError::InvalidSize { expected: 1, got: 0 }).into_fskc(),
            );
        }
        self.data.set(offset, data[0]);
        Ok(())
    }

    fn size(&self) -> usize {
        self.data.len()
    }
}

impl RegisterMemory {
    /// Write a whole word; fails exactly on a bad offset or a wrongly
    /// sized word.
    pub fn write_word(&mut self, offset: usize, data: &[u8]) -> (r: Result<(), FskcError>)
        ensures
            final(self).spec_word_size() == old(self).spec_word_size(),
            final(self).spec_words().len() == old(self).spec_words().len(),
            r is Ok <==> ((offset as int) < old(self).spec_words().len() && data@.len() == old(
                self,
            ).spec_word_size()),
            r is Ok ==> final(self).spec_words() == old(self).spec_words().update(
                offset as int,
                data@,
            ),
            r is Err ==> final(self).spec_words() == old(self).spec_words(),
            (offset as int) >= old(self).spec_words().len() ==> (r matches Err(e) ==> (e is Custom
                && e->Custom_0@ == "memory address out of bounds"@)) && (r is Err),
            ((offset as int) < old(self).spec_words().len() && data@.len() != old(
                self,
            ).spec_word_size()) ==> (r matches Err(e) ==> (e is Custom && e->Custom_0@
                == "invalid data size"@)) && (r is Err),
            old(self).wf() ==> final(self).wf(),
    {
        if offset >= self.data.len() {
            return Err(
                (MemoryError::OutOfBounds { addr: offset, size: self.data.len() }).into_fskc(),
            );
        }
        if data.len() != self.word_size {
            return Err(
                (MemoryError::InvalidSize { expected: self.word_size, got: data.len() }).into_fskc(),
            );
        }
        let word = copy_slice(data);
        let _old_word = self.data.remove(offset);
        self.data.insert(offset, word);
        proof {
            assert(self.spec_words() =~= old(self).spec_words().update(offset as int, data@));
        }
        Ok(())
    }
}

impl MemorySegment for RegisterMemory {
    fn read(&self, offset: usize) -> Result<&[u8], FskcError> {
        if offset >= self.data.len() {
            return Err(
                (MemoryError::OutOfBounds { addr: offset, size: self.data.len() }).into_fskc(),
            );
        }
        Ok(self.data[offset].as_slice())
    }

    fn write(&mut self, offset: usize, data: &[u8]) -> Result<(), FskcError> {
        self.write_word(offset, data)
    }

    fn size(&self) -> usize {
        self.data.len()
    }
}

impl DataMemory {
    /// Write a whole word; fails exactly on a bad offset or a wrongly
    /// sized word.
    pub fn write_word(&mut self, offset: usize, data: &[u8]) -> (r: Result<(), FskcError>)
        ensures
            final(self).spec_word_size() == old(self).spec_word_size(),
            final(self).spec_words().len() == old(self).spec_words().len(),
            r is Ok <==> ((offset as int) < old(self).spec_words().len() && data@.len() == old(
                self,
            ).spec_word_size()),
            r is Ok ==> final(self).spec_words() == old(self).spec_words().update(
                offset as int,
                data@,
            ),
            r is Err ==> final(self).spec_words() == old(self).spec_words(),
            (offset as int) >= old(self).spec_words().len() ==> (r matches Err(e) ==> (e is Custom
                && e->Custom_0@ == "memory address out of bounds"@)) && (r is Err),
            ((offset as int) < old(self).spec_words().len() && data@.len() != old(
                self,
            ).spec_word_size()) ==> (r matches Err(e) ==> (e is Custom && e->Custom_0@
                == "invalid data size"@)) && (r is Err),
            old(self).wf() ==> final(self).wf(),
    {
        if offset >= self.data.len() {
            return Err(
                (MemoryError::OutOfBounds { addr: offset, size: self.data.len() }).into_fskc(),
            );
        }
        if data.len() != self.word_size {
            return Err(
                (MemoryError::InvalidSize { expected: self.word_size, got: data.len() }).into_fskc(),
            );
        }
        let word = copy_slice(data);
        let _old_word = self.data.remove(offset);
        self.data.insert(offset, word);
        proof {
            assert(self.spec_words() =~= old(self).spec_words().update(offset as int, data@));
        }
        Ok(())
    }
}

impl MemorySegment for DataMemory {
    fn read(&self, offset: usize) -> Result<&[u8], FskcError> {
        if offset >= self.data.len() {
            return Err(
                (MemoryError::OutOfBounds { addr: offset, size: self.data.len() }).into_fskc(),
            );
        }
        Ok(self.data[offset].as_slice())
    }

    fn write(&mut self, offset: usize, data: &[u8]) -> Result<(), FskcError> {
        self.write_word(offset, data)
    }

    fn size(&self) -> usize {
        self.data.len()
    }
}

/// Copy a byte slice into a fresh vector.
pub fn copy_slice(data: &[u8]) -> (r: Vec<u8>)
    ensures
        r@ == data@,
{
    let mut out: Vec<u8> = Vec::new();
    let mut i: usize = 0;
    while i < data.len()
        invariant
            i <= data@.len(),
            out@ == data@.take(i as int),
        decreases data@.len() - i,
    {
        out.push(data[i]);
        proof {
            assert(out@ =~= data@.take(i + 1));
        }
        i = i + 1;
    }
    proof {
        assert(data@.take(data@.len() as int) =~= data@);
    }
    out
}

/// The memory management unit: program bytes below 0x100, the register
/// file from 0x100, and data words from 0x400. Addresses between the
/// register file and the data segment are rejected.
#[derive(Debug)]
pub struct Memory {
    program: ProgramMemory,
    registers: RegisterMemory,
    data: DataMemory,
}

impl Memory {
    /// The program bytes.
    pub closed spec fn spec_program(&self) -> Seq<u8> {
        self.program.spec_data()
    }

    /// The register words.
    pub closed spec fn spec_registers(&self) -> Seq<Seq<u8>> {
        self.registers.spec_words()
    }

    /// The data words.
    pub closed spec fn spec_data_words(&self) -> Seq<Seq<u8>> {
        self.data.spec_words()
    }

    /// The register file's configured word size.
    pub closed spec fn spec_reg_word_size(&self) -> int {
        self.registers.spec_word_size()
    }

    /// The data segment's configured word size.
    pub closed spec fn spec_data_word_size(&self) -> int {
        self.data.spec_word_size()
    }

    /// The unit's invariant: 32 registers of 32 bytes, 32-byte data
    /// words.
    pub open spec fn wf(&self) -> bool {
        &&& self.spec_registers().len() == 32
        &&& wf_words(self.spec_registers(), 32)
        &&& wf_words(self.spec_data_words(), 32)
        &&& self.spec_reg_word_size() == 32
        &&& self.spec_data_word_size() == 32
    }

    /// Create a memory unit with `size` data words, twice as many
    /// program bytes, and 32 registers of 32 bytes.
    pub fn new(size: usize) -> (r: Self)
        requires
            size <= 0x7FFF_FFFF,
        ensures
            r.wf(),
            r.spec_program() == Seq::new((size * 2) as nat, |i: int| 0u8),
            r.spec_data_words().len() == size,
    {
        Memory {
            program: ProgramMemory::new(size * 2),
            registers: RegisterMemory::new(32, 32),
            data: DataMemory::new(size, 32),
        }
    }

    /// Write program bytes from address zero; fails exactly when the
    /// program is longer than the program memory.
    pub fn write_program(&mut self, program: &[u8]) -> (r: Result<(), FskcError>)
        ensures
            final(self).spec_registers() == old(self).spec_registers(),
            final(self).spec_data_words() == old(self).spec_data_words(),
            old(self).wf() ==> final(self).wf(),
            r is Ok <==> program@.len() <= old(self).spec_program().len(),
            r is Ok ==> final(self).spec_program() == program@ + old(self).spec_program().skip(
                program@.len() as int,
            ),
            r is Err ==> final(self).spec_program() == old(self).spec_program(),
    {
        if program.len() > self.program.len() {
            return Err(
                (MemoryError::OutOfBounds { addr: program.len(), size: self.program.len() }).into_fskc(),
            );
        }
        let mut i: usize = 0;
        while i < program.len()
            invariant
                i <= program@.len() <= self.program.spec_data().len(),
                self.registers.spec_words() == old(self).registers.spec_words(),
                self.registers.spec_word_size() == old(self).registers.spec_word_size(),
                self.data.spec_words() == old(self).data.spec_words(),
                self.data.spec_word_size() == old(self).data.spec_word_size(),
                self.program.spec_data().len() == old(self).program.spec_data().len(),
                self.program.spec_data() == program@.take(i as int) + old(
                    self,
                ).program.spec_data().skip(i as int),
            decreases program@.len() - i,
        {
            let res = self.program.write_byte(i, program[i]);
            proof {
                assert(self.program.spec_data() =~= program@.take(i + 1) + old(
                    self,
                ).program.spec_data().skip(i + 1));
            }
            match res {
                Ok(()) => {},
                Err(_) => {},
            }
            i = i + 1;
        }
        proof {
            assert(program@.take(program@.len() as int) =~= program@);
        }
        Ok(())
    }

    /// Read one program byte.
    pub fn read_program_byte(&self, addr: usize) -> (r: Result<u8, FskcError>)
        ensures
            r is Ok <==> (addr as int) < self.spec_program().len(),
            r matches Ok(b) ==> b == self.spec_program()[addr as int],
    {
        self.program.read_byte(addr)
    }

    /// Write bytes at a mapped address: program bytes below 0x100, a
    /// whole 32-byte register word from 0x100, a whole 32-byte data word
    /// from 0x400. Addresses in between, addresses beyond the segments
    /// and wrongly sized words fail.
    pub fn write_bytes(&mut self, addr: usize, data: &[u8]) -> (r: Result<(), FskcError>)
        requires
            old(self).wf(),
        ensures
            final(self).wf(),
            addr < 0x100 ==> (r is Ok <==> addr + data@.len() <= old(self).spec_program().len()),
            addr < 0x100 && r is Ok ==> ({
                &&& final(self).spec_program() == old(self).spec_program().take(addr as int)
                    + data@ + old(self).spec_program().skip(addr as int + data@.len())
                &&& final(self).spec_registers() == old(self).spec_registers()
                &&& final(self).spec_data_words() == old(self).spec_data_words()
            }),
            (addr < 0x100 && r is Err) ==> (r->Err_0 is Custom && r->Err_0->Custom_0@
                == "memory address out of bounds"@),
            0x200 <= addr < 0x400 ==> ((r is Err) && r->Err_0 is Custom && r->Err_0->Custom_0@
                == "memory address out of bounds"@),
            (0x100 <= addr < 0x200 && addr - 0x100 >= old(self).spec_registers().len()) ==> ((
            r is Err) && r->Err_0 is Custom && r->Err_0->Custom_0@
                == "memory address out of bounds"@),
            (0x100 <= addr < 0x200 && addr - 0x100 < old(self).spec_registers().len()
                && data@.len() != 32) ==> ((r is Err) && r->Err_0 is Custom && r->Err_0->Custom_0@
                == "invalid data size"@),
            (addr >= 0x400 && addr - 0x400 >= old(self).spec_data_words().len()) ==> ((r is Err)
                && r->Err_0 is Custom && r->Err_0->Custom_0@ == "memory address out of bounds"@),
            (addr >= 0x400 && addr - 0x400 < old(self).spec_data_words().len() && data@.len() != 32)
                ==> ((r is Err) && r->Err_0 is Custom && r->Err_0->Custom_0@
                == "invalid data size"@),
            0x100 <= addr < 0x200 ==> ({
                &&& (r is Ok <==> (addr - 0x100 < old(self).spec_registers().len() && data@.len()
                    == 32))
                &&& (r is Ok ==> final(self).spec_registers() == old(self).spec_registers().update(
                    addr - 0x100,
                    data@,
                ) && final(self).spec_program() == old(self).spec_program()
                    && final(self).spec_data_words() == old(self).spec_data_words())
            }),
            0x200 <= addr < 0x400 ==> (r is Err),
            addr >= 0x400 ==> ({
                &&& (r is Ok <==> (addr - 0x400 < old(self).spec_data_words().len() && data@.len()
                    == 32))
                &&& (r is Ok ==> final(self).spec_data_words()
                    == old(self).spec_data_words().update(addr - 0x400, data@)
                    && final(self).spec_program() == old(self).spec_program()
                    && final(self).spec_registers() == old(self).spec_registers())
            }),
            r is Err ==> ({
                &&& final(self).spec_program() == old(self).spec_program()
                &&& final(self).spec_registers() == old(self).spec_registers()
                &&& final(self).spec_data_words() == old(self).spec_data_words()
            }),
    {
        if addr < 0x100 {
            let plen = self.program.len();
            if data.len() > plen || addr > plen - data.len() {
                return Err(
                    (MemoryError::OutOfBounds { addr, size: plen }).into_fskc(),
                );
            }
            let mut i: usize = 0;
            while i < data.len()
                invariant
                    i <= data@.len(),
                    addr + data@.len() <= usize::MAX,
                    addr + data@.len() <= self.program.spec_data().len(),
                    self.registers.spec_words() == old(self).registers.spec_words(),
                    self.registers.spec_word_size() == old(self).registers.spec_word_size(),
                    self.data.spec_words() == old(self).data.spec_words(),
                    self.data.spec_word_size() == old(self).data.spec_word_size(),
                    self.program.spec_data().len() == old(self).program.spec_data().len(),
                    self.program.spec_data() == old(self).program.spec_data().take(addr as int)
                        + data@.take(i as int) + old(self).program.spec_data().skip(
                        addr as int + i,
                    ),
                decreases data@.len() - i,
            {
                let res = self.program.write_byte(addr + i, data[i]);
                proof {
                    assert(self.program.spec_data() =~= old(self).program.spec_data().take(
                        addr as int,
                    ) + data@.take(i + 1) + old(self).program.spec_data().skip(addr as int + i + 1));
                }
                match res {
                    Ok(()) => {},
                    Err(_) => {},
                }
                i = i + 1;
            }
            proof {
                assert(data@.take(data@.len() as int) =~= data@);
            }
            Ok(())
        } else if addr < 0x200 {
            let reg_addr = addr - 0x100;
            let res = self.registers.write_word(reg_addr, data);
            proof {
                if res is Ok {
                    assert(self.registers.spec_words() =~= old(self).registers.spec_words().update(
                        reg_addr as int,
                        data@,
                    ));
                }
            }
            res
        } else if addr < 0x400 {
            Err((MemoryError::OutOfBounds { addr, size: 0 }).into_fskc())
        } else {
            let data_addr = addr - 0x400;
            let res = self.data.write_word(data_addr, data);
            proof {
                if res is Ok {
                    assert(self.data.spec_words() =~= old(self).data.spec_words().update(
                        data_addr as int,
                        data@,
                    ));
                }
            }
            res
        }
    }

    /// Read bytes at a mapped address: two program bytes below 0x100, a
    /// register word from 0x100, a data word from 0x400.
    pub fn read_bytes(&self, addr: usize) -> (r: Result<&[u8], FskcError>)
        requires
            self.wf(),
        ensures
            addr < 0x100 ==> ({
                &&& (r is Ok <==> addr + 1 < self.spec_program().len())
                &&& (r matches Ok(s) ==> s@ == self.spec_program().subrange(
                    addr as int,
                    addr as int + 2,
                ))
            }),
            0x100 <= addr < 0x200 ==> ({
                &&& (r is Ok <==> addr - 0x100 < self.spec_registers().len())
                &&& (r matches Ok(s) ==> s@ == self.spec_registers()[addr - 0x100])
            }),
            0x200 <= addr < 0x400 ==> (r is Err),
            addr >= 0x400 ==> ({
                &&& (r is Ok <==> addr - 0x400 < self.spec_data_words().len())
                &&& (r matches Ok(s) ==> s@ == self.spec_data_words()[addr - 0x400])
            }),
            r matches Ok(s) ==> (s@.len() == 2 || s@.len() == 32),
    {
        if addr < 0x100 {
            if addr + 1 >= self.program.len() {
                return Err(
                    (MemoryError::OutOfBounds { addr, size: self.program.len() }).into_fskc(),
                );
            }
            Ok(slice_subrange(self.program.data_slice(), addr, addr + 2))
        } else if addr < 0x200 {
            let reg_addr = addr - 0x100;
            if reg_addr >= self.registers.word_count() {
                return Err(
                    (MemoryError::OutOfBounds { addr: reg_addr, size: self.registers.word_count() }).into_fskc(),
                );
            }
            Ok(self.registers.word_at(reg_addr))
        } else if addr < 0x400 {
            Err((MemoryError::OutOfBounds { addr, size: 0 }).into_fskc())
        } else {
            let data_addr = addr - 0x400;
            if data_addr >= self.data.word_count() {
                return Err(
                    (MemoryError::OutOfBounds { addr: data_addr, size: self.data.word_count() }).into_fskc(),
                );
            }
            Ok(self.data.word_at(data_addr))
        }
    }
}

impl ProgramMemory {
    /// The bytes as a slice.
    pub(crate) fn data_slice(&self) -> (r: &[u8])
        ensures
            r@ == self.spec_data(),
    {
        self.data.as_slice()
    }
}

impl RegisterMemory {
    /// How many words the segment holds.
    pub(crate) fn word_count(&self) -> (r: usize)
        ensures
            r == self.spec_words().len(),
    {
        self.data.len()
    }

    /// The word at an offset.
    pub(crate) fn word_at(&self, offset: usize) -> (r: &[u8])
        requires
            (offset as int) < self.spec_words().len(),
        ensures
            r@ == self.spec_words()[offset as int],
    {
        self.data[offset].as_slice()
    }
}

impl DataMemory {
    /// How many words the segment holds.
    pub(crate) fn word_count(&self) -> (r: usize)
        ensures
            r == self.spec_words().len(),
    {
        self.data.len()
    }

    /// The word at an offset.
    pub(crate) fn word_at(&self, offset: usize) -> (r: &[u8])
        requires
            (offset as int) < self.spec_words().len(),
        ensures
            r@ == self.spec_words()[offset as int],
    {
        self.data[offset].as_slice()
    }
}

} // verus!
