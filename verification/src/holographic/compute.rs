//! Register-machine computation over the time-stepped encryption: four
//! virtual registers hold encrypted values; operations decrypt, combine
//! and re-encrypt, so each register is specified by the plain value it
//! decrypts to.
use super::{
    apply_steps_exec, lemma_apply_keys_len, lemma_apply_unapply, unapply_keys, unapply_steps_exec,
    DerivedKeyPackage, HolographicKeyPackage,
};
use crate::crypto::spec_xor_bytes;
use crate::FskcError;
use vstd::prelude::*;

verus! {

/// A virtual register holding an encrypted value.
#[derive(Debug, Clone)]
pub struct Register {
    data: Vec<u8>,
    encrypted: bool,
}

/// Operations available over the encrypted registers.
#[derive(Debug, Clone, Copy, PartialEq, Eq, Structural)]
pub enum Operation {
    Add,
    Sub,
    And,
    Or,
    Xor,
    Not,
    Shl,
    Shr,
}

/// The operations the engine implements.
pub open spec fn spec_implemented(op: Operation) -> bool {
    match op {
        Operation::Add => true,
        Operation::Sub => true,
        Operation::And => true,
        Operation::Or => true,
        Operation::Xor => true,
        _ => false,
    }
}

/// Byte-wise addition with carry over the first `k` bytes: the sums so
/// far and the outgoing carry.
pub open spec fn spec_add_seq(a: Seq<u8>, b: Seq<u8>, k: int) -> (Seq<u8>, bool)
    decreases k,
{
    if k <= 0 {
        (Seq::empty(), false)
    } else {
        let rest = spec_add_seq(a, b, k - 1);
        let total = a[k - 1] + b[k - 1] + (if rest.1 {
            1int
        } else {
            0int
        });
        (rest.0.push((total % 256) as u8), total >= 256)
    }
}

/// Byte-wise subtraction with borrow over the first `k` bytes.
pub open spec fn spec_sub_seq(a: Seq<u8>, b: Seq<u8>, k: int) -> (Seq<u8>, bool)
    decreases k,
{
    if k <= 0 {
        (Seq::empty(), false)
    } else {
        let rest = spec_sub_seq(a, b, k - 1);
        let total = a[k - 1] - b[k - 1] - (if rest.1 {
            1int
        } else {
            0int
        });
        (rest.0.push((total % 256) as u8), total < 0)
    }
}

/// The plain result of an implemented operation on two plain values of
/// equal length.
pub open spec fn spec_op_result(op: Operation, a: Seq<u8>, b: Seq<u8>) -> Seq<u8> {
    match op {
        Operation::Add => spec_add_seq(a, b, a.len() as int).0,
        Operation::Sub => spec_sub_seq(a, b, a.len() as int).0,
        Operation::And => Seq::new(a.len(), |i: int| a[i] & b[i]),
        Operation::Or => Seq::new(a.len(), |i: int| a[i] | b[i]),
        Operation::Xor => spec_xor_bytes(a, b),
        _ => a,
    }
}

/// Whether every byte of the value is zero.
pub open spec fn spec_all_zero(s: Seq<u8>) -> bool {
    forall|i: int| 0 <= i < s.len() ==> s[i] == 0
}

/// The flags after an operation: `Add` writes the carry into bit 0, and
/// every operation writes whether the result is all zeros into bit 1.
pub open spec fn spec_flags_after(op: Operation, flags: u8, a: Seq<u8>, b: Seq<u8>) -> u8 {
    let with_carry = if op is Add {
        if spec_add_seq(a, b, a.len() as int).1 {
            flags | 1
        } else {
            flags & 0xFE
        }
    } else {
        flags
    };
    if spec_all_zero(spec_op_result(op, a, b)) {
        with_carry | 2
    } else {
        with_carry & 0xFD
    }
}

/// Byte-wise addition with carry.
pub(crate) fn add_bytes(a: &Vec<u8>, b: &Vec<u8>) -> (r: (Vec<u8>, bool))
    requires
        a@.len() == b@.len(),
    ensures
        (r.0@, r.1) == spec_add_seq(a@, b@, a@.len() as int),
        r.0@.len() == a@.len(),
{
    let mut out: Vec<u8> = Vec::new();
    let mut carry: bool = false;
    let mut i: usize = 0;
    while i < a.len()
        invariant
            a@.len() == b@.len(),
            i <= a@.len(),
            (out@, carry) == spec_add_seq(a@, b@, i as int),
            out@.len() == i,
        decreases a@.len() - i,
    {
        let c0 = carry;
        let sum: u16 = a[i] as u16 + b[i] as u16 + (if carry {
            1
        } else {
            0
        });
        let byte: u8 = (sum % 256) as u8;
        proof {
            let total = a@[i as int] + b@[i as int] + (if c0 {
                1int
            } else {
                0int
            });
            assert(sum as int == total);
            assert(byte as int == total % 256);
            assert((sum > 255) == (total >= 256));
        }
        out.push(byte);
        carry = sum > 255;
        i = i + 1;
    }
    (out, carry)
}

/// Byte-wise subtraction with borrow.
pub(crate) fn sub_bytes(a: &Vec<u8>, b: &Vec<u8>) -> (r: (Vec<u8>, bool))
    requires
        a@.len() == b@.len(),
    ensures
        (r.0@, r.1) == spec_sub_seq(a@, b@, a@.len() as int),
        r.0@.len() == a@.len(),
{
    let mut out: Vec<u8> = Vec::new();
    let mut borrow: bool = false;
    let mut i: usize = 0;
    while i < a.len()
        invariant
            a@.len() == b@.len(),
            i <= a@.len(),
            (out@, borrow) == spec_sub_seq(a@, b@, i as int),
            out@.len() == i,
        decreases a@.len() - i,
    {
        let diff: i32 = a[i] as i32 - b[i] as i32 - (if borrow {
            1
        } else {
            0
        });
        if diff < 0 {
            out.push((diff + 256) as u8);
            borrow = true;
        } else {
            out.push(diff as u8);
            borrow = false;
        }
        i = i + 1;
    }
    (out, borrow)
}

/// Byte-wise AND.
pub(crate) fn and_bytes(a: &Vec<u8>, b: &Vec<u8>) -> (r: Vec<u8>)
    requires
        a@.len() == b@.len(),
    ensures
        r@ == Seq::new(a@.len(), |i: int| a@[i] & b@[i]),
{
    let mut out: Vec<u8> = Vec::new();
    let mut i: usize = 0;
    while i < a.len()
        invariant
            a@.len() == b@.len(),
            i <= a@.len(),
            out@ == Seq::new(a@.len(), |j: int| a@[j] & b@[j]).take(i as int),
        decreases a@.len() - i,
    {
        out.push(a[i] & b[i]);
        proof {
            assert(out@ =~= Seq::new(a@.len(), |j: int| a@[j] & b@[j]).take(i + 1));
        }
        i = i + 1;
    }
    proof {
        assert(Seq::new(a@.len(), |j: int| a@[j] & b@[j]).take(a@.len() as int) =~= Seq::new(
            a@.len(),
            |j: int| a@[j] & b@[j],
        ));
    }
    out
}

/// Byte-wise OR.
pub(crate) fn or_bytes(a: &Vec<u8>, b: &Vec<u8>) -> (r: Vec<u8>)
    requires
        a@.len() == b@.len(),
    ensures
        r@ == Seq::new(a@.len(), |i: int| a@[i] | b@[i]),
{
    let mut out: Vec<u8> = Vec::new();
    let mut i: usize = 0;
    while i < a.len()
        invariant
            a@.len() == b@.len(),
            i <= a@.len(),
            out@ == Seq::new(a@.len(), |j: int| a@[j] | b@[j]).take(i as int),
        decreases a@.len() - i,
    {
        out.push(a[i] | b[i]);
        proof {
            assert(out@ =~= Seq::new(a@.len(), |j: int| a@[j] | b@[j]).take(i + 1));
        }
        i = i + 1;
    }
    proof {
        assert(Seq::new(a@.len(), |j: int| a@[j] | b@[j]).take(a@.len() as int) =~= Seq::new(
            a@.len(),
            |j: int| a@[j] | b@[j],
        ));
    }
    out
}

/// Whether every byte is zero.
pub(crate) fn all_zero(v: &Vec<u8>) -> (r: bool)
    ensures
        r == spec_all_zero(v@),
{
    let mut i: usize = 0;
    while i < v.len()
        invariant
            i <= v@.len(),
            forall|j: int| 0 <= j < i ==> v@[j] == 0,
        decreases v@.len() - i,
    {
        if v[i] != 0 {
            return false;
        }
        i = i + 1;
    }
    true
}

/// Computational capabilities over the time-stepped encryption: four
/// registers and a flags byte.
#[derive(Debug, Clone)]
pub struct HomomorphicCompute {
    root_pkg: HolographicKeyPackage,
    derived_pkg: DerivedKeyPackage,
    registers: Vec<Register>,
    flags: u8,
}

impl HomomorphicCompute {
    /// The derived key package the registers are encrypted under.
    pub closed spec fn spec_derived(&self) -> DerivedKeyPackage {
        self.derived_pkg
    }

    /// The root key package.
    pub closed spec fn spec_root_pkg(&self) -> HolographicKeyPackage {
        self.root_pkg
    }

    /// The encrypted contents of the registers.
    pub closed spec fn spec_registers(&self) -> Seq<Seq<u8>> {
        self.registers@.map(|i: int, r: Register| r.data@)
    }

    /// The flags byte.
    pub closed spec fn spec_flags(&self) -> u8 {
        self.flags
    }

    /// The plain value register `i` decrypts to.
    pub open spec fn spec_plain(&self, i: int) -> Seq<u8> {
        unapply_keys(self.spec_registers()[i], self.spec_derived().active_keys())
    }

    /// Four registers, a well-formed key package.
    pub open spec fn wf(&self) -> bool {
        &&& self.spec_registers().len() == 4
        &&& self.spec_derived().wf()
        &&& self.spec_root_pkg().wf()
    }

    /// Create a computation environment from a root package: the enclave
    /// key is derived from it and four registers are set to the
    /// encryption of eight zero bytes.
    pub fn new(root_pkg: HolographicKeyPackage) -> (r: Result<HomomorphicCompute, FskcError>)
        requires
            root_pkg.wf(),
        ensures
            r is Ok,
            r matches Ok(c) ==> ({
                &&& c.wf()
                &&& c.spec_flags() == 0
                &&& forall|i: int| 0 <= i < 4 ==> #[trigger] c.spec_plain(i) =~= Seq::new(8, |j: int| 0u8)
            }),
    {
        let derived_pkg = match root_pkg.derive_enclave_key() {
            Ok(d) => d,
            Err(e) => {
                return Err(e);
            },
        };
        let mut registers: Vec<Register> = Vec::new();
        let mut i: usize = 0;
        while i < 4
            invariant
                i <= 4,
                derived_pkg.wf(),
                registers@.len() == i,
                forall|j: int|
                    0 <= j < i ==> unapply_keys(
                        #[trigger] registers@[j].data@,
                        derived_pkg.active_keys(),
                    ) =~= Seq::new(8, |k: int| 0u8),
            decreases 4 - i,
        {
            let mut data: Vec<u8> = vec![0u8; 8];
            proof {
                assert(data@ =~= Seq::new(8, |k: int| 0u8));
            }
            let ghost plain = data@;
            match derived_pkg.apply_forward(&mut data) {
                Ok(()) => {},
                Err(e) => {
                    return Err(e);
                },
            }
            proof {
                lemma_apply_unapply(plain, derived_pkg.active_keys());
            }
            registers.push(Register { data, encrypted: true });
            i = i + 1;
        }
        let c = HomomorphicCompute { root_pkg, derived_pkg, registers, flags: 0 };
        proof {
            assert(forall|i2: int| 0 <= i2 < 4 ==> #[trigger] c.spec_plain(i2) =~= Seq::new(8, |j: int| 0u8));
        }
        Ok(c)
    }

    /// Advance both the root and the derived key package to their next
    /// time step.
    pub fn advance_time_step(&mut self) -> (r: Result<(), FskcError>)
        ensures
            final(self).spec_registers() == old(self).spec_registers(),
            final(self).spec_flags() == old(self).spec_flags(),
            old(self).wf() ==> final(self).wf(),
    {
        match self.root_pkg.advance() {
            Ok(()) => {},
            Err(e) => {
                return Err(e);
            },
        }
        match self.derived_pkg.advance() {
            Ok(()) => {},
            Err(e) => {
                return Err(e);
            },
        }
        Ok(())
    }

    /// Load a value into a register, replacing its contents with the
    /// encryption of the value. Fails exactly when the register index is
    /// out of range.
    pub fn load(&mut self, reg: usize, value: &Vec<u8>) -> (r: Result<(), FskcError>)
        requires
            old(self).wf(),
        ensures
            final(self).wf(),
            final(self).spec_derived() == old(self).spec_derived(),
            final(self).spec_root_pkg() == old(self).spec_root_pkg(),
            final(self).spec_flags() == old(self).spec_flags(),
            r is Ok <==> reg < 4,
            r is Err ==> final(self).spec_registers() == old(self).spec_registers(),
            r is Ok ==> ({
                &&& final(self).spec_plain(reg as int) == value@
                &&& forall|j: int|
                    0 <= j < 4 && j != reg ==> #[trigger] final(self).spec_registers()[j] == old(
                        self,
                    ).spec_registers()[j]
                &&& forall|j: int|
                    0 <= j < 4 && j != reg ==> #[trigger] final(self).spec_plain(j) == old(
                        self,
                    ).spec_plain(j)
            }),
    {
        if reg >= self.registers.len() {
            return Err(FskcError::EncryptionError("invalid register".to_owned()));
        }
        let mut reg_data = super::super::pairlet::copy_u8_vec(value);
        let ghost plain = reg_data@;
        match self.derived_pkg.apply_forward(&mut reg_data) {
            Ok(()) => {},
            Err(e) => {
                return Err(e);
            },
        }
        proof {
            lemma_apply_unapply(plain, self.spec_derived().active_keys());
        }
        let mut slot = self.registers.remove(reg);
        slot.data = reg_data;
        slot.encrypted = true;
        self.registers.insert(reg, slot);
        proof {
            assert(final(self).spec_registers()[reg as int] == reg_data@);
            assert(forall|j: int|
                0 <= j < 4 && j != reg ==> #[trigger] self.spec_registers()[j] == old(
                    self,
                ).spec_registers()[j]);
            assert forall|j: int| 0 <= j < 4 && j != reg implies #[trigger] self.spec_plain(j)
                == old(self).spec_plain(j) by {
                assert(self.spec_registers()[j] == old(self).spec_registers()[j]);
            }
        }
        Ok(())
    }

    /// Perform an operation between two registers, storing the result in
    /// the first: the destination's new plain value is the operation
    /// applied to the two old plain values, the carry flag records an
    /// addition's carry, and the zero flag records whether the result is
    /// all zeros. Fails exactly on an out-of-range register or an
    /// unimplemented operation, leaving everything unchanged.
    pub fn compute(&mut self, op: Operation, dest: usize, src: usize) -> (r: Result<(), FskcError>)
        requires
            old(self).wf(),
            dest < 4 && src < 4 ==> old(self).spec_plain(dest as int).len() == old(self).spec_plain(
                src as int,
            ).len(),
        ensures
            final(self).wf(),
            final(self).spec_derived() == old(self).spec_derived(),
            final(self).spec_root_pkg() == old(self).spec_root_pkg(),
            r is Ok <==> (dest < 4 && src < 4 && spec_implemented(op)),
            r is Err ==> (final(self).spec_registers() == old(self).spec_registers()
                && final(self).spec_flags() == old(self).spec_flags()),
            r is Ok ==> ({
                &&& final(self).spec_plain(dest as int) == spec_op_result(
                    op,
                    old(self).spec_plain(dest as int),
                    old(self).spec_plain(src as int),
                )
                &&& final(self).spec_plain(dest as int).len() == old(self).spec_plain(
                    dest as int,
                ).len()
                &&& forall|j: int|
                    0 <= j < 4 && j != dest ==> #[trigger] final(self).spec_registers()[j] == old(
                        self,
                    ).spec_registers()[j]
                &&& final(self).spec_flags() == spec_flags_after(
                    op,
                    old(self).spec_flags(),
                    old(self).spec_plain(dest as int),
                    old(self).spec_plain(src as int),
                )
            }),
    {
        if dest >= self.registers.len() || src >= self.registers.len() {
            return Err(FskcError::EncryptionError("invalid register".to_owned()));
        }
        let implemented = match op {
            Operation::Add => true,
            Operation::Sub => true,
            Operation::And => true,
            Operation::Or => true,
            Operation::Xor => true,
            _ => false,
        };
        if !implemented {
            return Err(FskcError::EncryptionError("operation not implemented".to_owned()));
        }
        let n = self.registers.len();
        let dest_enc = super::super::pairlet::copy_u8_vec(&self.registers[dest].data);
        let src_enc = super::super::pairlet::copy_u8_vec(&self.registers[src].data);
        let dest_val = unapply_steps_exec(
            &dest_enc,
            self.derived_pkg.steps_ref(),
            self.derived_pkg.upto(),
        );
        let src_val = unapply_steps_exec(
            &src_enc,
            self.derived_pkg.steps_ref(),
            self.derived_pkg.upto(),
        );
        let ghost pa = old(self).spec_plain(dest as int);
        let ghost pb = old(self).spec_plain(src as int);
        proof {
            assert(dest_val@ == pa);
            assert(src_val@ == pb);
        }
        let mut result: Vec<u8>;
        match op {
            Operation::Add => {
                let (sum, carry) = add_bytes(&dest_val, &src_val);
                result = sum;
                self.flags = if carry {
                    self.flags | 1
                } else {
                    self.flags & 0xFE
                };
            },
            Operation::Sub => {
                let (diff, _borrow) = sub_bytes(&dest_val, &src_val);
                result = diff;
            },
            Operation::And => {
                result = and_bytes(&dest_val, &src_val);
            },
            Operation::Or => {
                result = or_bytes(&dest_val, &src_val);
            },
            _ => {
                result = crate::crypto::xor_bytes(dest_val.as_slice(), src_val.as_slice());
            },
        }
        let zero = all_zero(&result);
        self.flags = if zero {
            self.flags | 2
        } else {
            self.flags & 0xFD
        };
        let ghost plain_result = result@;
        proof {
            assert(plain_result == spec_op_result(op, pa, pb));
        }
        let mut stored = result;
        match self.derived_pkg.apply_forward(&mut stored) {
            Ok(()) => {},
            Err(e) => {
                return Err(e);
            },
        }
        proof {
            lemma_apply_unapply(plain_result, self.spec_derived().active_keys());
        }
        let mut slot = self.registers.remove(dest);
        slot.data = stored;
        slot.encrypted = true;
        self.registers.insert(dest, slot);
        proof {
            assert(final(self).spec_plain(dest as int) == spec_op_result(op, pa, pb));
            assert(forall|j: int|
                0 <= j < 4 && j != dest ==> #[trigger] self.spec_registers()[j] == old(
                    self,
                ).spec_registers()[j]);
        }
        Ok(())
    }

    /// Read the plain value a register decrypts to. Fails exactly when
    /// the register index is out of range; the state is unchanged either
    /// way.
    pub fn read(&mut self, reg: usize) -> (r: Result<Vec<u8>, FskcError>)
        requires
            old(self).wf(),
        ensures
            *final(self) == *old(self),
            r is Ok <==> reg < 4,
            r matches Ok(v) ==> v@ == old(self).spec_plain(reg as int),
    {
        if reg >= self.registers.len() {
            return Err(FskcError::EncryptionError("invalid register".to_owned()));
        }
        let enc = super::super::pairlet::copy_u8_vec(&self.registers[reg].data);
        let plain = unapply_steps_exec(&enc, self.derived_pkg.steps_ref(), self.derived_pkg.upto());
        Ok(plain)
    }

    /// The length of the plain value a register decrypts to; decryption
    /// keeps the stored length.
    pub fn plain_len(&self, reg: usize) -> (r: usize)
        requires
            self.wf(),
            reg < 4,
        ensures
            r == self.spec_plain(reg as int).len(),
    {
        proof {
            super::lemma_apply_keys_len(
                self.spec_registers()[reg as int],
                self.spec_derived().active_keys(),
            );
        }
        self.registers[reg].data.len()
    }

    /// The current flags byte: bit 0 is the carry flag, bit 1 the zero
    /// flag.
    pub fn flags(&self) -> (r: u8)
        ensures
            r == self.spec_flags(),
    {
        self.flags
    }
}

} // verus!
