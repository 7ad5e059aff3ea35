//! The AVR-like instruction set: two-byte encodings and their decoder.
use vstd::prelude::*;

verus! {

/// Register identifier (0-31).
#[derive(Debug, Clone, Copy, PartialEq, Eq, Structural)]
pub struct Register(pub u8);

impl Register {
    /// Create a new register identifier; at most 31.
    pub fn new(id: u8) -> (r: Option<Self>)
        ensures
            id < 32 <==> r is Some,
            r matches Some(reg) ==> reg.0 == id,
    {
        if id < 32 {
            Some(Register(id))
        } else {
            None
        }
    }

    /// The register for an index, keeping its low five bits.
    pub fn from_index(idx: usize) -> (r: Self)
        ensures
            r.0 == idx % 32,
    {
        proof {
            assert((idx & 0x1F) == idx % 32) by (bit_vector);
        }
        Register((idx & 0x1F) as u8)
    }

    /// The register's index.
    pub fn index(&self) -> (r: usize)
        ensures
            r == self.0 as usize,
    {
        self.0 as usize
    }
}

/// A memory address.
#[derive(Debug, Clone, Copy, PartialEq, Eq, Structural)]
pub struct MemoryAddress(pub u16);

impl MemoryAddress {
    /// Create a new memory address.
    pub fn new(addr: u16) -> (r: Self)
        ensures
            r.0 == addr,
    {
        MemoryAddress(addr)
    }

    /// The address value.
    pub fn value(&self) -> (r: usize)
        ensures
            r == self.0 as usize,
    {
        self.0 as usize
    }
}

/// A program counter value.
#[derive(Debug, Clone, Copy, PartialEq, Eq, Structural)]
pub struct ProgramCounter(pub i16);

impl ProgramCounter {
    /// Create a new program counter value.
    pub fn new(offset: i16) -> (r: Self)
        ensures
            r.0 == offset,
    {
        ProgramCounter(offset)
    }

    /// The counter value.
    pub fn value(&self) -> (r: i16)
        ensures
            r == self.0,
    {
        self.0
    }
}

/// Status register flags.
#[derive(Debug, Clone, Copy, PartialEq, Eq, Structural)]
pub struct StatusFlags {
    /// Z: the last result was zero.
    pub zero: bool,
    /// N: the last result was negative.
    pub negative: bool,
}

impl StatusFlags {
    /// Both flags cleared.
    pub fn new() -> (r: Self)
        ensures
            !r.zero,
            !r.negative,
    {
        StatusFlags { zero: false, negative: false }
    }
}

/// An AVR-like instruction.
#[derive(Debug, Clone, Copy, PartialEq, Eq, Structural)]
pub enum Instruction {
    /// Load from memory into a register.
    Load(Register, MemoryAddress),
    /// Store a register to memory.
    Store(MemoryAddress, Register),
    /// Add two registers into a destination.
    Add(Register, Register, Register),
    /// Subtract two registers into a destination.
    Sub(Register, Register, Register),
    /// AND two registers into a destination.
    And(Register, Register, Register),
    /// OR two registers into a destination.
    Or(Register, Register, Register),
    /// XOR two registers into a destination.
    Xor(Register, Register, Register),
    /// Jump to an address.
    Jump(MemoryAddress),
    /// Branch to an address when the zero flag is set.
    BranchEq(MemoryAddress),
    /// No operation.
    Nop,
    /// Halt execution.
    Halt,
}

/// The two-byte encoding of an instruction.
pub open spec fn spec_encode(i: Instruction) -> (u8, u8) {
    match i {
        Instruction::Load(reg, addr) => ((0x80 | (reg.0 % 16)) as u8, (addr.0 % 256) as u8),
        Instruction::Store(addr, reg) => ((0x90 | (reg.0 % 16)) as u8, (addr.0 % 256) as u8),
        Instruction::Add(rd, rs1, rs2) => (
            0x03u8,
            (((rd.0 % 4) * 16 + (rs1.0 % 4) * 4 + (rs2.0 % 4)) % 256) as u8,
        ),
        Instruction::Sub(rd, rs1, _) => (0x04u8, (((rd.0 % 16) * 16 + rs1.0 % 16) % 256) as u8),
        Instruction::And(rd, rs1, _) => (0x05u8, (((rd.0 % 16) * 16 + rs1.0 % 16) % 256) as u8),
        Instruction::Or(rd, rs1, _) => (0x06u8, (((rd.0 % 16) * 16 + rs1.0 % 16) % 256) as u8),
        Instruction::Xor(rd, rs1, _) => (0x07u8, (((rd.0 % 16) * 16 + rs1.0 % 16) % 256) as u8),
        Instruction::Jump(addr) => (0xE0u8, (addr.0 % 256) as u8),
        Instruction::BranchEq(addr) => (0xE1u8, (addr.0 % 256) as u8),
        Instruction::Nop => (0xFFu8, 0x00u8),
        Instruction::Halt => (0xFFu8, 0xFFu8),
    }
}

/// The instruction a byte pair decodes to, if any. The encoding keeps
/// two deliberate quirks: the byte pair that `Nop` encodes to decodes
/// as `Halt` and the pair `Halt` encodes to decodes as `Nop`, and the
/// register-to-register forms other than `Add` decode their third
/// register as R0.
pub open spec fn spec_decode(opcode: u8, operand: u8) -> Option<Instruction> {
    if opcode & 0xF0 == 0x80 {
        Some(
            Instruction::Load(
                Register((opcode % 16) as u8),
                MemoryAddress((0x400 + operand) as u16),
            ),
        )
    } else if opcode & 0xF0 == 0x90 {
        Some(
            Instruction::Store(
                MemoryAddress((0x400 + operand) as u16),
                Register((opcode % 16) as u8),
            ),
        )
    } else if opcode == 0x03 {
        Some(
            Instruction::Add(
                Register((operand / 16) as u8),
                Register(((operand / 4) % 4) as u8),
                Register((operand % 4) as u8),
            ),
        )
    } else if opcode == 0x04 {
        Some(
            Instruction::Sub(
                Register((operand / 16) as u8),
                Register((operand % 16) as u8),
                Register(0),
            ),
        )
    } else if opcode == 0x05 {
        Some(
            Instruction::And(
                Register((operand / 16) as u8),
                Register((operand % 16) as u8),
                Register(0),
            ),
        )
    } else if opcode == 0x06 {
        Some(
            Instruction::Or(
                Register((operand / 16) as u8),
                Register((operand % 16) as u8),
                Register(0),
            ),
        )
    } else if opcode == 0x07 {
        Some(
            Instruction::Xor(
                Register((operand / 16) as u8),
                Register((operand % 16) as u8),
                Register(0),
            ),
        )
    } else if opcode == 0xE0 {
        Some(Instruction::Jump(MemoryAddress(operand as u16)))
    } else if opcode == 0xE1 {
        Some(Instruction::BranchEq(MemoryAddress(operand as u16)))
    } else if opcode == 0xFF {
        if operand == 0x00 {
            Some(Instruction::Halt)
        } else {
            Some(Instruction::Nop)
        }
    } else {
        None
    }
}

impl Instruction {
    /// Encode the instruction as two bytes.
    pub fn encode(&self) -> (r: [u8; 2])
        ensures
            r@[0] == spec_encode(*self).0,
            r@[1] == spec_encode(*self).1,
    {
        let pair: (u8, u8) = match self {
            Instruction::Load(reg, addr) => {
                let a0 = addr.0;
                proof {
                    assert(((a0 & 0xFF) as u16) == a0 % 256) by (bit_vector);
                }
                (0x80 | (reg.0 % 16), (a0 & 0xFF) as u8)
            },
            Instruction::Store(addr, reg) => {
                let a0 = addr.0;
                proof {
                    assert(((a0 & 0xFF) as u16) == a0 % 256) by (bit_vector);
                }
                (0x90 | (reg.0 % 16), (a0 & 0xFF) as u8)
            },
            Instruction::Add(rd, rs1, rs2) => {
                (0x03, (rd.0 % 4) * 16 + (rs1.0 % 4) * 4 + (rs2.0 % 4))
            },
            Instruction::Sub(rd, rs1, _) => (0x04, (rd.0 % 16) * 16 + rs1.0 % 16),
            Instruction::And(rd, rs1, _) => (0x05, (rd.0 % 16) * 16 + rs1.0 % 16),
            Instruction::Or(rd, rs1, _) => (0x06, (rd.0 % 16) * 16 + rs1.0 % 16),
            Instruction::Xor(rd, rs1, _) => (0x07, (rd.0 % 16) * 16 + rs1.0 % 16),
            Instruction::Jump(addr) => {
                let a0 = addr.0;
                proof {
                    assert(((a0 & 0xFF) as u16) == a0 % 256) by (bit_vector);
                }
                (0xE0, (a0 & 0xFF) as u8)
            },
            Instruction::BranchEq(addr) => {
                let a0 = addr.0;
                proof {
                    assert(((a0 & 0xFF) as u16) == a0 % 256) by (bit_vector);
                }
                (0xE1, (a0 & 0xFF) as u8)
            },
            Instruction::Nop => (0xFF, 0x00),
            Instruction::Halt => (0xFF, 0xFF),
        };
        [pair.0, pair.1]
    }

    /// Decode two bytes into an instruction, if the opcode is known.
    pub fn decode(opcode: u8, operand: u8) -> (r: Option<Instruction>)
        ensures
            r == spec_decode(opcode, operand),
    {
        let group = opcode & 0xF0;
        proof {
            assert((opcode & 0x0F) == opcode % 16) by (bit_vector);
            assert((operand >> 4) == operand / 16) by (bit_vector);
            assert(((operand >> 2) & 0x03) == (operand / 4) % 4) by (bit_vector);
            assert((operand & 0x03) == operand % 4) by (bit_vector);
            assert((operand & 0x0F) == operand % 16) by (bit_vector);
        }
        if group == 0x80 {
            Some(
                Instruction::Load(
                    Register(opcode & 0x0F),
                    MemoryAddress(0x400 + operand as u16),
                ),
            )
        } else if group == 0x90 {
            Some(
                Instruction::Store(
                    MemoryAddress(0x400 + operand as u16),
                    Register(opcode & 0x0F),
                ),
            )
        } else if opcode == 0x03 {
            Some(
                Instruction::Add(
                    Register(operand >> 4),
                    Register((operand >> 2) & 0x03),
                    Register(operand & 0x03),
                ),
            )
        } else if opcode == 0x04 {
            Some(Instruction::Sub(Register(operand >> 4), Register(operand & 0x0F), Register(0)))
        } else if opcode == 0x05 {
            Some(Instruction::And(Register(operand >> 4), Register(operand & 0x0F), Register(0)))
        } else if opcode == 0x06 {
            Some(Instruction::Or(Register(operand >> 4), Register(operand & 0x0F), Register(0)))
        } else if opcode == 0x07 {
            Some(Instruction::Xor(Register(operand >> 4), Register(operand & 0x0F), Register(0)))
        } else if opcode == 0xE0 {
            Some(Instruction::Jump(MemoryAddress(operand as u16)))
        } else if opcode == 0xE1 {
            Some(Instruction::BranchEq(MemoryAddress(operand as u16)))
        } else if opcode == 0xFF {
            if operand == 0x00 {
                Some(Instruction::Halt)
            } else {
                Some(Instruction::Nop)
            }
        } else {
            None
        }
    }
}

/// Encoding then decoding restores a `Load` whose register index is
/// below 16 and whose address lies in the data segment, a `Store` of the
/// same shape, and an `Add` whose three registers are below 4.
pub proof fn lemma_encode_decode_roundtrip(i: Instruction)
    requires
        match i {
            Instruction::Load(reg, addr) => reg.0 < 16 && 0x400 <= addr.0 < 0x500,
            Instruction::Store(addr, reg) => reg.0 < 16 && 0x400 <= addr.0 < 0x500,
            Instruction::Add(rd, rs1, rs2) => rd.0 < 4 && rs1.0 < 4 && rs2.0 < 4,
            _ => false,
        },
    ensures
        spec_decode(spec_encode(i).0, spec_encode(i).1) == Some(i),
{
    match i {
        Instruction::Load(reg, addr) => {
            let r0 = reg.0;
            assert(reg.0 % 16 == reg.0);
            assert((0x80u8 | (r0 % 16)) & 0xF0 == 0x80 && (0x80u8 | (r0 % 16)) % 16 == r0 % 16)
                by (bit_vector);
            assert(addr.0 % 256 + 0x400 == addr.0);
        },
        Instruction::Store(addr, reg) => {
            let r0 = reg.0;
            assert(reg.0 % 16 == reg.0);
            assert((0x90u8 | (r0 % 16)) & 0xF0 == 0x90 && (0x90u8 | (r0 % 16)) % 16 == r0 % 16)
                by (bit_vector);
            assert(addr.0 % 256 + 0x400 == addr.0);
        },
        Instruction::Add(rd, rs1, rs2) => {
            assert(0x03u8 & 0xF0 == 0x00) by (bit_vector);
            let operand = spec_encode(i).1;
            assert(rd.0 % 4 == rd.0 && rs1.0 % 4 == rs1.0 && rs2.0 % 4 == rs2.0);
            let v = (rd.0 * 16 + rs1.0 * 4 + rs2.0) as int;
            assert(v < 256);
            assert(operand == v);
            assert(v / 16 == rd.0 && (v / 4) % 4 == rs1.0 && v % 4 == rs2.0) by (nonlinear_arith)
                requires
                    v == rd.0 * 16 + rs1.0 * 4 + rs2.0,
                    0 <= rd.0 < 4,
                    0 <= rs1.0 < 4,
                    0 <= rs2.0 < 4,
            ;
        },
        _ => {},
    }
}

/// An instruction decoder.
pub trait InstructionDecoder {
    /// Decode raw bytes into an instruction.
    fn decode(&self, opcode: u8, operand: u8) -> (r: Option<Instruction>)
        ensures
            r == spec_decode(opcode, operand),
    ;
}

/// The default AVR-like instruction decoder.
#[derive(Debug, Clone, Copy)]
pub struct AvrDecoder;

impl InstructionDecoder for AvrDecoder {
    fn decode(&self, opcode: u8, operand: u8) -> (r: Option<Instruction>)
        ensures
            r == spec_decode(opcode, operand),
    {
        Instruction::decode(opcode, operand)
    }
}

} // verus!
