//! The instruction set and its 16-bit encoding.
//!
//! Two word formats share the address space of encodings, told apart by
//! bit 15:
//!
//! * type A, bit 15 clear: `0RRR LLLL LLLL LLLL` — `Imm(reg, Literal12Bit)`;
//! * type B, bit 15 set: the opcode sits in bits 0..3, register operands
//!   in bits 12..14 and 9..11, and a variant-specific field in bits 4
//!   and up (a third register code, a nibble, a test or stack operation
//!   code, a 7-bit literal, or a 10-bit literal).
//!
//! Type B opcodes: `SetAndSave`/`AddAndSave` share `0x0` (told apart by
//! bits 7..8), `Add = 0x1`, `Sub = 0x2`, `AddImm = 0x3`,
//! `AddImmSigned = 0x4`, `ShiftLeft = 0x5`, `ShiftRightLogical = 0x6`,
//! `ShiftRightArithmetic = 0x7`, `Load = 0x8`, `Store = 0x9`,
//! `Test = 0xa`, `AddIf = 0xb`, `Jump`/`JumpOffset` share `0xc` (told
//! apart by bit 14), `Stack = 0xd`, `LoadStackOffset = 0xe`,
//! `System = 0xf`.
//!
//! Decoding is total but for unknown test and stack operation codes,
//! which are rejected; a type B word with opcode `0x0` and neither
//! link-op bit pattern decodes to `Invalid`, the trap value that encodes
//! as the raw word it carries.

use vstd::prelude::*;

use crate::register::Register;

verus! {

/// A decode failure: a word whose test or stack operation code names no
/// operation.
#[derive(Clone, Copy, Debug, PartialEq, Eq, Structural)]
pub enum EncodingError {
    BadOpcode(u16),
    BadTestOp(u16),
    BadStackOp(u16),
}

/// A 4-bit value, `0 ..= 15`.
#[derive(Clone, Copy, Debug, PartialEq, Eq, Structural)]
pub struct Nibble {
    pub value: u8,
}

impl Nibble {
    pub open spec fn wf(self) -> bool {
        self.value < 0x10
    }

    /// Wrap a value known to fit in 4 bits.
    pub fn new(value: u8) -> (r: Nibble)
        requires
            value < 0x10,
        ensures
            r.value == value,
    {
        Nibble { value }
    }

    /// `Some` exactly when the value fits in 4 bits.
    pub fn new_checked(value: u8) -> (r: Option<Nibble>)
        ensures
            r matches Some(n) ==> n.value == value && n.wf(),
            r is Some <==> value < 0x10,
    {
        if value < 0x10 {
            Some(Nibble { value })
        } else {
            None
        }
    }
}

/// A 7-bit value, `0 ..= 0x7f`, with a sign-magnitude signed reading:
/// bit 6 is the sign, bits 0..5 the magnitude.
#[derive(Clone, Copy, Debug, PartialEq, Eq, Structural)]
pub struct Literal7Bit {
    pub value: u8,
}

impl Literal7Bit {
    pub open spec fn wf(self) -> bool {
        self.value < 0x80
    }

    /// The sign-magnitude reading: the magnitude in bits 0..5, negated
    /// when bit 6 is set.
    pub open spec fn spec_signed(self) -> int {
        if self.value & 0x40 == 0x40 {
            -((self.value & 0x3f) as int)
        } else {
            (self.value & 0x3f) as int
        }
    }

    /// Wrap a value known to fit in 7 bits.
    pub fn new(value: u8) -> (r: Literal7Bit)
        requires
            value < 0x80,
        ensures
            r.value == value,
    {
        Literal7Bit { value }
    }

    /// `Some` exactly when the value fits in 7 bits.
    pub fn new_checked(value: u8) -> (r: Option<Literal7Bit>)
        ensures
            r matches Some(l) ==> l.value == value && l.wf(),
            r is Some <==> value < 0x80,
    {
        if value < 0x80 {
            Some(Literal7Bit { value })
        } else {
            None
        }
    }

    /// Encode a signed number in sign-magnitude form: `Some` exactly for
    /// `-63 ..= 63`, and `as_signed` gives the number back.
    pub fn from_signed(value: i8) -> (r: Option<Literal7Bit>)
        ensures
            r is Some <==> -63 <= value <= 63,
            r matches Some(l) ==> l.wf() && l.spec_signed() == value as int,
    {
        if -63 <= value && value <= 63 {
            if value < 0 {
                let mag: u8 = (-value) as u8;
                let v: u8 = 0x40 | mag;
                proof {
                    let m = mag;
                    assert(m <= 63 ==> (0x40u8 | m) < 0x80 && ((0x40u8 | m) & 0x40) == 0x40 && ((
                    0x40u8 | m) & 0x3f) == m) by (bit_vector);
                }
                Some(Literal7Bit { value: v })
            } else {
                let v: u8 = value as u8;
                proof {
                    let m = v;
                    assert(m <= 63 ==> ((m & 0x40) == 0 && (m & 0x3f) == m)) by (bit_vector);
                }
                Some(Literal7Bit { value: v })
            }
        } else {
            None
        }
    }

    /// The sign-magnitude reading as a machine integer.
    pub fn as_signed(&self) -> (r: i8)
        ensures
            r as int == self.spec_signed(),
    {
        let mag: u8 = self.value & 0x3f;
        proof {
            let v = self.value;
            assert((v & 0x3f) < 0x40) by (bit_vector);
        }
        if self.value & 0x40 == 0x40 {
            -(mag as i8)
        } else {
            mag as i8
        }
    }
}

/// A 10-bit value, `0 ..= 0x3ff`.
#[derive(Clone, Copy, Debug, PartialEq, Eq, Structural)]
pub struct Literal10Bit {
    pub value: u16,
}

impl Literal10Bit {
    pub open spec fn wf(self) -> bool {
        self.value < 0x400
    }

    /// Wrap a value known to fit in 10 bits.
    pub fn new(value: u16) -> (r: Literal10Bit)
        requires
            value < 0x400,
        ensures
            r.value == value,
    {
        Literal10Bit { value }
    }

    /// `Some` exactly when the value fits in 10 bits.
    pub fn new_checked(value: u16) -> (r: Option<Literal10Bit>)
        ensures
            r matches Some(l) ==> l.value == value && l.wf(),
            r is Some <==> value < 0x400,
    {
        if value < 0x400 {
            Some(Literal10Bit { value })
        } else {
            None
        }
    }
}

/// A 12-bit value, `0 ..= 0xfff`, the immediate of type A words.
#[derive(Clone, Copy, Debug, PartialEq, Eq, Structural)]
pub struct Literal12Bit {
    pub value: u16,
}

impl Literal12Bit {
    pub open spec fn wf(self) -> bool {
        self.value < 0x1000
    }

    /// Wrap a value known to fit in 12 bits.
    pub fn new(value: u16) -> (r: Literal12Bit)
        requires
            value < 0x1000,
        ensures
            r.value == value,
    {
        Literal12Bit { value }
    }

    /// `Some` exactly when the value fits in 12 bits.
    pub fn new_checked(value: u16) -> (r: Option<Literal12Bit>)
        ensures
            r matches Some(l) ==> l.value == value && l.wf(),
            r is Some <==> value < 0x1000,
    {
        if value < 0x1000 {
            Some(Literal12Bit { value })
        } else {
            None
        }
    }
}

/// The predicate a `Test` instruction latches into the `Compare` flag.
/// All comparisons are unsigned.
#[derive(Clone, Copy, Debug, PartialEq, Eq, Structural)]
pub enum TestOp {
    Eq,
    Neq,
    Lt,
    Lte,
    Gt,
    Gte,
    BothZero,
    EitherNonZero,
    BothNonZero,
}

impl TestOp {
    /// The code this predicate is encoded as, `0 ..= 8`.
    pub open spec fn spec_code(self) -> u16 {
        match self {
            TestOp::Eq => 0,
            TestOp::Neq => 1,
            TestOp::Lt => 2,
            TestOp::Lte => 3,
            TestOp::Gt => 4,
            TestOp::Gte => 5,
            TestOp::BothZero => 6,
            TestOp::EitherNonZero => 7,
            TestOp::BothNonZero => 8,
        }
    }

    #[verifier::when_used_as_spec(spec_code)]
    pub fn code(self) -> (r: u16)
        ensures
            r == self.spec_code(),
    {
        match self {
            TestOp::Eq => 0,
            TestOp::Neq => 1,
            TestOp::Lt => 2,
            TestOp::Lte => 3,
            TestOp::Gt => 4,
            TestOp::Gte => 5,
            TestOp::BothZero => 6,
            TestOp::EitherNonZero => 7,
            TestOp::BothNonZero => 8,
        }
    }

    /// The predicate a code names, if any: `Some` exactly for `0 ..= 8`.
    pub open spec fn spec_from_u16(value: u16) -> Option<TestOp> {
        if value == 0 {
            Some(TestOp::Eq)
        } else if value == 1 {
            Some(TestOp::Neq)
        } else if value == 2 {
            Some(TestOp::Lt)
        } else if value == 3 {
            Some(TestOp::Lte)
        } else if value == 4 {
            Some(TestOp::Gt)
        } else if value == 5 {
            Some(TestOp::Gte)
        } else if value == 6 {
            Some(TestOp::BothZero)
        } else if value == 7 {
            Some(TestOp::EitherNonZero)
        } else if value == 8 {
            Some(TestOp::BothNonZero)
        } else {
            None
        }
    }

    #[verifier::when_used_as_spec(spec_from_u16)]
    pub fn from_u16(value: u16) -> (r: Option<TestOp>)
        ensures
            r == Self::spec_from_u16(value),
    {
        match value {
            0 => Some(TestOp::Eq),
            1 => Some(TestOp::Neq),
            2 => Some(TestOp::Lt),
            3 => Some(TestOp::Lte),
            4 => Some(TestOp::Gt),
            5 => Some(TestOp::Gte),
            6 => Some(TestOp::BothZero),
            7 => Some(TestOp::EitherNonZero),
            8 => Some(TestOp::BothNonZero),
            _ => None,
        }
    }
}

/// A stack instruction's operation, acting on 16-bit words below the
/// stack pointer.
#[derive(Clone, Copy, Debug, PartialEq, Eq, Structural)]
pub enum StackOp {
    Pop,
    Push,
    Peek,
    Swap,
    Dup,
    Rotate,
    Add,
    Sub,
}

impl StackOp {
    /// The code this operation is encoded as, `0 ..= 7`.
    pub open spec fn spec_code(self) -> u16 {
        match self {
            StackOp::Pop => 0,
            StackOp::Push => 1,
            StackOp::Peek => 2,
            StackOp::Swap => 3,
            StackOp::Dup => 4,
            StackOp::Rotate => 5,
            StackOp::Add => 6,
            StackOp::Sub => 7,
        }
    }

    #[verifier::when_used_as_spec(spec_code)]
    pub fn code(self) -> (r: u16)
        ensures
            r == self.spec_code(),
    {
        match self {
            StackOp::Pop => 0,
            StackOp::Push => 1,
            StackOp::Peek => 2,
            StackOp::Swap => 3,
            StackOp::Dup => 4,
            StackOp::Rotate => 5,
            StackOp::Add => 6,
            StackOp::Sub => 7,
        }
    }

    /// The operation a code names, if any: `Some` exactly for `0 ..= 7`.
    pub open spec fn spec_from_u16(value: u16) -> Option<StackOp> {
        if value == 0 {
            Some(StackOp::Pop)
        } else if value == 1 {
            Some(StackOp::Push)
        } else if value == 2 {
            Some(StackOp::Peek)
        } else if value == 3 {
            Some(StackOp::Swap)
        } else if value == 4 {
            Some(StackOp::Dup)
        } else if value == 5 {
            Some(StackOp::Rotate)
        } else if value == 6 {
            Some(StackOp::Add)
        } else if value == 7 {
            Some(StackOp::Sub)
        } else {
            None
        }
    }

    #[verifier::when_used_as_spec(spec_from_u16)]
    pub fn from_u16(value: u16) -> (r: Option<StackOp>)
        ensures
            r == Self::spec_from_u16(value),
    {
        match value {
            0 => Some(StackOp::Pop),
            1 => Some(StackOp::Push),
            2 => Some(StackOp::Peek),
            3 => Some(StackOp::Swap),
            4 => Some(StackOp::Dup),
            5 => Some(StackOp::Rotate),
            6 => Some(StackOp::Add),
            7 => Some(StackOp::Sub),
            _ => None,
        }
    }
}

/// The register named by the low three bits of a field.
pub open spec fn reg_of_code(code: u16) -> Register {
    if code & 0x7 == 0 {
        Register::Zero
    } else if code & 0x7 == 1 {
        Register::A
    } else if code & 0x7 == 2 {
        Register::B
    } else if code & 0x7 == 3 {
        Register::C
    } else if code & 0x7 == 4 {
        Register::M
    } else if code & 0x7 == 5 {
        Register::SP
    } else if code & 0x7 == 6 {
        Register::PC
    } else {
        Register::BP
    }
}

/// A register code maps back to the register it came from.
pub proof fn lemma_reg_of_code(r: Register)
    ensures
        reg_of_code(r.spec_code() as u16) == r,
{
    let c = r.spec_code() as u16;
    assert(c < 8);
    assert(c < 8 ==> c & 0x7 == c) by (bit_vector);
}

/// One machine instruction.
///
/// Where a variant carries registers, the placement follows the word
/// fields: the first constructor operand goes to bits 12..14, the second
/// to bits 9..11, and a third register to bits 4..6. For the arithmetic
/// instructions the *third* operand is the destination (`Add(a, b, c)`
/// leaves `a + b` in `c`); for the shifts the *second* is
/// (`ShiftLeft(s, d, n)` leaves `s << n` in `d`); `AddImm`,
/// `AddImmSigned` and `AddIf` name their destination first.
///
/// `Invalid` is the trap value: it encodes as the raw word it carries
/// and faults when executed.
#[derive(Clone, Copy, Debug, PartialEq, Eq, Structural)]
pub enum Instruction {
    Imm(Register, Literal12Bit),
    Add(Register, Register, Register),
    Sub(Register, Register, Register),
    AddImm(Register, Literal7Bit),
    AddImmSigned(Register, Literal7Bit),
    ShiftLeft(Register, Register, Nibble),
    ShiftRightLogical(Register, Register, Nibble),
    ShiftRightArithmetic(Register, Register, Nibble),
    Load(Register, Register, Register),
    Store(Register, Register, Register),
    Test(Register, Register, TestOp),
    AddIf(Register, Register, Nibble),
    Jump(Literal10Bit),
    JumpOffset(Literal10Bit),
    SetAndSave(Register, Register, Register),
    AddAndSave(Register, Register, Register),
    Stack(Register, Register, StackOp),
    LoadStackOffset(Register, Register, Nibble),
    System(Register, Register, Nibble),
    Invalid(u16),
}

/// A type B word from an opcode, two register fields and the 5-bit
/// variant field.
pub open spec fn spec_word_b(op: u16, r1: Register, r2: Register, sub: u16) -> u16 {
    0x8000u16 | op | ((r1.spec_code() as u16) << 12) | ((r2.spec_code() as u16) << 9) | (sub << 4)
}

impl Instruction {
    /// Every bounded literal carried by the instruction is in range.
    pub open spec fn wf(self) -> bool {
        match self {
            Instruction::Imm(_, l12) => l12.wf(),
            Instruction::AddImm(_, l7) => l7.wf(),
            Instruction::AddImmSigned(_, l7) => l7.wf(),
            Instruction::ShiftLeft(_, _, n) => n.wf(),
            Instruction::ShiftRightLogical(_, _, n) => n.wf(),
            Instruction::ShiftRightArithmetic(_, _, n) => n.wf(),
            Instruction::AddIf(_, _, n) => n.wf(),
            Instruction::Jump(l10) => l10.wf(),
            Instruction::JumpOffset(l10) => l10.wf(),
            Instruction::LoadStackOffset(_, _, n) => n.wf(),
            Instruction::System(_, _, n) => n.wf(),
            _ => true,
        }
    }

    /// The word this instruction encodes as.
    pub open spec fn spec_encode(self) -> u16 {
        match self {
            Instruction::Imm(r, l12) => ((r.spec_code() as u16) << 12) | (l12.value & 0xfff),
            Instruction::Add(a, b, c) => spec_word_b(0x1, a, b, c.spec_code() as u16),
            Instruction::Sub(a, b, c) => spec_word_b(0x2, a, b, c.spec_code() as u16),
            Instruction::AddImm(d, l7) => spec_word_b(0x3, d, Register::Zero, ((l7.value as u16) & 0x7f)),
            Instruction::AddImmSigned(d, l7) => spec_word_b(0x4, d, Register::Zero, ((l7.value as u16) & 0x7f)),
            Instruction::ShiftLeft(s, d, n) => spec_word_b(0x5, s, d, ((n.value as u16) & 0xf)),
            Instruction::ShiftRightLogical(s, d, n) => spec_word_b(0x6, s, d, ((n.value as u16) & 0xf)),
            Instruction::ShiftRightArithmetic(s, d, n) => spec_word_b(0x7, s, d, ((n.value as u16) & 0xf)),
            Instruction::Load(d, lo, hi) => spec_word_b(0x8, d, lo, hi.spec_code() as u16),
            Instruction::Store(s, lo, hi) => spec_word_b(0x9, s, lo, hi.spec_code() as u16),
            Instruction::Test(a, b, t) => spec_word_b(0xa, a, b, t.spec_code()),
            Instruction::AddIf(d, s, n) => spec_word_b(0xb, d, s, ((n.value as u16) & 0xf)),
            Instruction::Jump(l10) => 0x8000u16 | 0xc | ((l10.value & 0x3ff) << 4),
            Instruction::JumpOffset(l10) => 0x8000u16 | 0x400c | ((l10.value & 0x3ff) << 4),
            Instruction::SetAndSave(d, s, link) => spec_word_b(
                0x0,
                d,
                s,
                (link.spec_code() as u16) | 0x8,
            ),
            Instruction::AddAndSave(d, s, link) => spec_word_b(
                0x0,
                d,
                s,
                (link.spec_code() as u16) | 0x10,
            ),
            Instruction::Stack(r, sp, op) => spec_word_b(0xd, r, sp, op.spec_code()),
            Instruction::LoadStackOffset(d, base, n) => spec_word_b(0xe, d, base, ((n.value as u16) & 0xf)),
            Instruction::System(a, b, n) => spec_word_b(0xf, a, b, ((n.value as u16) & 0xf)),
            Instruction::Invalid(w) => w,
        }
    }

    /// The instruction a word decodes to, or the sub-operation code that
    /// made decoding fail.
    pub open spec fn spec_decode(word: u16) -> Result<Instruction, EncodingError> {
        if word & 0x8000 == 0 {
            Ok(
                Instruction::Imm(
                    reg_of_code((word >> 12) & 0x7),
                    Literal12Bit { value: word & 0xfff },
                ),
            )
        } else {
            let op = word & 0xf;
            let r1 = reg_of_code((word >> 12) & 0x7);
            let r2 = reg_of_code((word >> 9) & 0x7);
            let r3 = reg_of_code((word >> 4) & 0x7);
            let nib = Nibble { value: ((word >> 4) & 0xf) as u8 };
            if op == 0x0 {
                let sub = (word >> 7) & 0x3;
                if sub == 1 {
                    Ok(Instruction::SetAndSave(r1, r2, r3))
                } else if sub == 2 {
                    Ok(Instruction::AddAndSave(r1, r2, r3))
                } else {
                    Ok(Instruction::Invalid(word))
                }
            } else if op == 0x1 {
                Ok(Instruction::Add(r1, r2, r3))
            } else if op == 0x2 {
                Ok(Instruction::Sub(r1, r2, r3))
            } else if op == 0x3 {
                Ok(Instruction::AddImm(r1, Literal7Bit { value: ((word >> 4) & 0x7f) as u8 }))
            } else if op == 0x4 {
                Ok(Instruction::AddImmSigned(r1, Literal7Bit { value: ((word >> 4) & 0x7f) as u8 }))
            } else if op == 0x5 {
                Ok(Instruction::ShiftLeft(r1, r2, nib))
            } else if op == 0x6 {
                Ok(Instruction::ShiftRightLogical(r1, r2, nib))
            } else if op == 0x7 {
                Ok(Instruction::ShiftRightArithmetic(r1, r2, nib))
            } else if op == 0x8 {
                Ok(Instruction::Load(r1, r2, r3))
            } else if op == 0x9 {
                Ok(Instruction::Store(r1, r2, r3))
            } else if op == 0xa {
                match TestOp::spec_from_u16((word >> 4) & 0xf) {
                    Some(t) => Ok(Instruction::Test(r1, r2, t)),
                    None => Err(EncodingError::BadTestOp((word >> 4) & 0xf)),
                }
            } else if op == 0xb {
                Ok(Instruction::AddIf(r1, r2, nib))
            } else if op == 0xc {
                let l10 = Literal10Bit { value: (word >> 4) & 0x3ff };
                if (word >> 14) & 0x1 == 0 {
                    Ok(Instruction::Jump(l10))
                } else {
                    Ok(Instruction::JumpOffset(l10))
                }
            } else if op == 0xd {
                match StackOp::spec_from_u16((word >> 4) & 0xf) {
                    Some(s) => Ok(Instruction::Stack(r1, r2, s)),
                    None => Err(EncodingError::BadStackOp((word >> 4) & 0xf)),
                }
            } else if op == 0xe {
                Ok(Instruction::LoadStackOffset(r1, r2, nib))
            } else {
                Ok(Instruction::System(r1, r2, nib))
            }
        }
    }

    /// Encode this instruction as a 16-bit word.
    pub fn encode_u16(&self) -> (w: u16)
        ensures
            w == self.spec_encode(),
    {
        match *self {
            Instruction::Imm(r, l12) => r.as_mask_first() | (l12.value & 0xfff),
            Instruction::Add(a, b, c) => word_b(0x1, a, b, c.code() as u16),
            Instruction::Sub(a, b, c) => word_b(0x2, a, b, c.code() as u16),
            Instruction::AddImm(d, l7) => word_b(0x3, d, Register::Zero, ((l7.value as u16) & 0x7f)),
            Instruction::AddImmSigned(d, l7) => word_b(
                0x4,
                d,
                Register::Zero,
                ((l7.value as u16) & 0x7f),
            ),
            Instruction::ShiftLeft(s, d, n) => word_b(0x5, s, d, ((n.value as u16) & 0xf)),
            Instruction::ShiftRightLogical(s, d, n) => word_b(0x6, s, d, ((n.value as u16) & 0xf)),
            Instruction::ShiftRightArithmetic(s, d, n) => word_b(0x7, s, d, ((n.value as u16) & 0xf)),
            Instruction::Load(d, lo, hi) => word_b(0x8, d, lo, hi.code() as u16),
            Instruction::Store(s, lo, hi) => word_b(0x9, s, lo, hi.code() as u16),
            Instruction::Test(a, b, t) => word_b(0xa, a, b, t.code()),
            Instruction::AddIf(d, s, n) => word_b(0xb, d, s, ((n.value as u16) & 0xf)),
            Instruction::Jump(l10) => 0x8000u16 | 0xc | ((l10.value & 0x3ff) << 4),
            Instruction::JumpOffset(l10) => 0x8000u16 | 0x400c | ((l10.value & 0x3ff) << 4),
            Instruction::SetAndSave(d, s, link) => word_b(0x0, d, s, (link.code() as u16) | 0x8),
            Instruction::AddAndSave(d, s, link) => word_b(0x0, d, s, (link.code() as u16) | 0x10),
            Instruction::Stack(r, sp, op) => word_b(0xd, r, sp, op.code()),
            Instruction::LoadStackOffset(d, base, n) => word_b(0xe, d, base, ((n.value as u16) & 0xf)),
            Instruction::System(a, b, n) => word_b(0xf, a, b, ((n.value as u16) & 0xf)),
            Instruction::Invalid(w) => w,
        }
    }

    /// Decode a 16-bit word.
    pub fn decode(word: u16) -> (r: Result<Instruction, EncodingError>)
        ensures
            r == Self::spec_decode(word),
    {
        proof {
            lemma_decode_fields(word);
        }
        if word & 0x8000 == 0 {
            let r1 = match Register::from_u8(((word >> 12) & 0x7) as u8) {
                Some(r) => r,
                None => Register::Zero,
            };
            proof {
                lemma_reg_of_code(r1);
            }
            Ok(Instruction::Imm(r1, Literal12Bit { value: word & 0xfff }))
        } else {
            let op = word & 0xf;
            let r1 = match Register::from_u8(((word >> 12) & 0x7) as u8) {
                Some(r) => r,
                None => Register::Zero,
            };
            let r2 = match Register::from_u8(((word >> 9) & 0x7) as u8) {
                Some(r) => r,
                None => Register::Zero,
            };
            let r3 = match Register::from_u8(((word >> 4) & 0x7) as u8) {
                Some(r) => r,
                None => Register::Zero,
            };
            proof {
                lemma_reg_of_code(r1);
                lemma_reg_of_code(r2);
                lemma_reg_of_code(r3);
            }
            let nib = Nibble { value: ((word >> 4) & 0xf) as u8 };
            if op == 0x0 {
                let sub = (word >> 7) & 0x3;
                if sub == 1 {
                    Ok(Instruction::SetAndSave(r1, r2, r3))
                } else if sub == 2 {
                    Ok(Instruction::AddAndSave(r1, r2, r3))
                } else {
                    Ok(Instruction::Invalid(word))
                }
            } else if op == 0x1 {
                Ok(Instruction::Add(r1, r2, r3))
            } else if op == 0x2 {
                Ok(Instruction::Sub(r1, r2, r3))
            } else if op == 0x3 {
                Ok(Instruction::AddImm(r1, Literal7Bit { value: ((word >> 4) & 0x7f) as u8 }))
            } else if op == 0x4 {
                Ok(Instruction::AddImmSigned(r1, Literal7Bit { value: ((word >> 4) & 0x7f) as u8 }))
            } else if op == 0x5 {
                Ok(Instruction::ShiftLeft(r1, r2, nib))
            } else if op == 0x6 {
                Ok(Instruction::ShiftRightLogical(r1, r2, nib))
            } else if op == 0x7 {
                Ok(Instruction::ShiftRightArithmetic(r1, r2, nib))
            } else if op == 0x8 {
                Ok(Instruction::Load(r1, r2, r3))
            } else if op == 0x9 {
                Ok(Instruction::Store(r1, r2, r3))
            } else if op == 0xa {
                match TestOp::from_u16((word >> 4) & 0xf) {
                    Some(t) => Ok(Instruction::Test(r1, r2, t)),
                    None => Err(EncodingError::BadTestOp((word >> 4) & 0xf)),
                }
            } else if op == 0xb {
                Ok(Instruction::AddIf(r1, r2, nib))
            } else if op == 0xc {
                let l10 = Literal10Bit { value: (word >> 4) & 0x3ff };
                if (word >> 14) & 0x1 == 0 {
                    Ok(Instruction::Jump(l10))
                } else {
                    Ok(Instruction::JumpOffset(l10))
                }
            } else if op == 0xd {
                match StackOp::from_u16((word >> 4) & 0xf) {
                    Some(s) => Ok(Instruction::Stack(r1, r2, s)),
                    None => Err(EncodingError::BadStackOp((word >> 4) & 0xf)),
                }
            } else if op == 0xe {
                Ok(Instruction::LoadStackOffset(r1, r2, nib))
            } else {
                Ok(Instruction::System(r1, r2, nib))
            }
        }
    }
}

/// Exec builder for a type B word.
pub(crate) fn word_b(op: u16, r1: Register, r2: Register, sub: u16) -> (w: u16)
    ensures
        w == spec_word_b(op, r1, r2, sub),
{
    0x8000u16 | op | r1.as_mask_first() | r2.as_mask_second() | (sub << 4)
}

/// The decoder's field extractions are all in range.
pub(crate) proof fn lemma_decode_fields(w: u16)
    ensures
        (w >> 12) & 0x7 < 8,
        (w >> 9) & 0x7 < 8,
        (w >> 4) & 0x7 < 8,
        (w >> 4) & 0xf < 0x10,
        (w >> 4) & 0x7f < 0x80,
        (w >> 4) & 0x3ff < 0x400,
        w & 0xfff < 0x1000,
{
    assert((w >> 12) & 0x7 < 8 && (w >> 9) & 0x7 < 8 && (w >> 4) & 0x7 < 8 && (w >> 4) & 0xf < 0x10
        && (w >> 4) & 0x7f < 0x80 && (w >> 4) & 0x3ff < 0x400 && w & 0xfff < 0x1000)
        by (bit_vector);
}

/// Field recovery from a type B word: every field written by
/// `spec_word_b` reads back unchanged.
pub(crate) proof fn lemma_word_b_fields(op: u16, c1: u16, c2: u16, sub: u16)
    requires
        op < 0x10,
        c1 < 8,
        c2 < 8,
        sub < 0x20,
    ensures
        ({
            let w = 0x8000u16 | op | (c1 << 12) | (c2 << 9) | (sub << 4);
            &&& w & 0x8000 == 0x8000
            &&& w & 0xf == op
            &&& (w >> 12) & 0x7 == c1
            &&& (w >> 9) & 0x7 == c2
            &&& (w >> 4) & 0xf == sub & 0xf
            &&& (w >> 4) & 0x7 == sub & 0x7
            &&& (w >> 7) & 0x3 == (sub >> 3) & 0x3
        }),
{
    assert(op < 0x10 && c1 < 8 && c2 < 8 && sub < 0x20 ==> ({
        let w = 0x8000u16 | op | (c1 << 12) | (c2 << 9) | (sub << 4);
        &&& w & 0x8000 == 0x8000
        &&& w & 0xf == op
        &&& (w >> 12) & 0x7 == c1
        &&& (w >> 9) & 0x7 == c2
        &&& (w >> 4) & 0xf == sub & 0xf
        &&& (w >> 4) & 0x7 == sub & 0x7
        &&& (w >> 7) & 0x3 == (sub >> 3) & 0x3
    })) by (bit_vector);
}

/// Field recovery for the register-and-7-bit-literal layout, whose
/// literal spills over the second register field, held at zero.
pub(crate) proof fn lemma_word_l7_fields(op: u16, c1: u16, l7: u16)
    requires
        op < 0x10,
        c1 < 8,
        l7 < 0x80,
    ensures
        ({
            let w = 0x8000u16 | op | (c1 << 12) | (0u16 << 9) | (l7 << 4);
            &&& w & 0x8000 == 0x8000
            &&& w & 0xf == op
            &&& (w >> 12) & 0x7 == c1
            &&& (w >> 4) & 0x7f == l7
        }),
{
    assert(op < 0x10 && c1 < 8 && l7 < 0x80 ==> ({
        let w = 0x8000u16 | op | (c1 << 12) | (0u16 << 9) | (l7 << 4);
        &&& w & 0x8000 == 0x8000
        &&& w & 0xf == op
        &&& (w >> 12) & 0x7 == c1
        &&& (w >> 4) & 0x7f == l7
    })) by (bit_vector);
}

/// Field recovery for the two 10-bit-literal jump layouts.
pub(crate) proof fn lemma_word_l10_fields(l10: u16)
    requires
        l10 < 0x400,
    ensures
        ({
            let wn = 0x8000u16 | 0xc | (l10 << 4);
            let wf_ = 0x8000u16 | 0x400c | (l10 << 4);
            &&& wn & 0x8000 == 0x8000 && wf_ & 0x8000 == 0x8000
            &&& wn & 0xf == 0xc && wf_ & 0xf == 0xc
            &&& (wn >> 4) & 0x3ff == l10 && (wf_ >> 4) & 0x3ff == l10
            &&& (wn >> 14) & 0x1 == 0 && (wf_ >> 14) & 0x1 == 1
        }),
{
    assert(l10 < 0x400 ==> ({
        let wn = 0x8000u16 | 0xc | (l10 << 4);
        let wf_ = 0x8000u16 | 0x400c | (l10 << 4);
        &&& wn & 0x8000 == 0x8000 && wf_ & 0x8000 == 0x8000
        &&& wn & 0xf == 0xc && wf_ & 0xf == 0xc
        &&& (wn >> 4) & 0x3ff == l10 && (wf_ >> 4) & 0x3ff == l10
        &&& (wn >> 14) & 0x1 == 0 && (wf_ >> 14) & 0x1 == 1
    })) by (bit_vector);
}

/// Field recovery for a type A word.
pub(crate) proof fn lemma_word_a_fields(c1: u16, l12: u16)
    requires
        c1 < 8,
        l12 < 0x1000,
    ensures
        ({
            let w = (c1 << 12) | l12;
            &&& w & 0x8000 == 0
            &&& (w >> 12) & 0x7 == c1
            &&& w & 0xfff == l12
        }),
{
    assert(c1 < 8 && l12 < 0x1000 ==> ({
        let w = (c1 << 12) | l12;
        &&& w & 0x8000 == 0
        &&& (w >> 12) & 0x7 == c1
        &&& w & 0xfff == l12
    })) by (bit_vector);
}

/// Small bit identities used to put encodings in the lemmas' shapes.
pub(crate) proof fn lemma_sub_codes(c: u16)
    requires
        c < 8,
    ensures
        (c | 0x8) < 0x20 && ((c | 0x8) >> 3) & 0x3 == 1 && (c | 0x8) & 0x7 == c,
        (c | 0x10) < 0x20 && ((c | 0x10) >> 3) & 0x3 == 2 && (c | 0x10) & 0x7 == c,
        c & 0x7f == c,
        c & 0xf == c,
        c & 0x7 == c,
{
    assert(c < 8 ==> ((c | 0x8) < 0x20 && ((c | 0x8) >> 3) & 0x3 == 1 && (c | 0x8) & 0x7 == c && (c
        | 0x10) < 0x20 && ((c | 0x10) >> 3) & 0x3 == 2 && (c | 0x10) & 0x7 == c && c & 0x7f == c
        && c & 0xf == c && c & 0x7 == c)) by (bit_vector);
}

/// The encoding round trip: decoding the word an instruction encodes as
/// gives the instruction back.
///
/// This holds for every instruction whose bounded literals are in range.
/// An `Invalid` value round-trips exactly when its raw word is not
/// claimed by a real instruction: bit 15 set, opcode `0x0`, and bits
/// 7..8 naming neither link operation.
pub proof fn lemma_encode_round_trip(i: Instruction)
    requires
        i.wf(),
        i matches Instruction::Invalid(w) ==> w & 0x8000 == 0x8000 && w & 0xf == 0 && ((w >> 7)
            & 0x3 == 0 || (w >> 7) & 0x3 == 3),
    ensures
        Instruction::spec_decode(i.spec_encode()) == Ok::<Instruction, EncodingError>(i),
{
    match i {
        Instruction::Imm(r, l12) => rt_imm(r, l12),
        Instruction::Add(a, b, c) => rt_b3(0x1, a, b, c, i),
        Instruction::Sub(a, b, c) => rt_b3(0x2, a, b, c, i),
        Instruction::AddImm(d, l7) => rt_l7(0x3, d, l7, i),
        Instruction::AddImmSigned(d, l7) => rt_l7(0x4, d, l7, i),
        Instruction::ShiftLeft(s, d, n) => rt_nib(0x5, s, d, n, i),
        Instruction::ShiftRightLogical(s, d, n) => rt_nib(0x6, s, d, n, i),
        Instruction::ShiftRightArithmetic(s, d, n) => rt_nib(0x7, s, d, n, i),
        Instruction::Load(d, lo, hi) => rt_b3(0x8, d, lo, hi, i),
        Instruction::Store(s, lo, hi) => rt_b3(0x9, s, lo, hi, i),
        Instruction::Test(a, b, t) => rt_test(a, b, t),
        Instruction::AddIf(d, s, n) => rt_nib(0xb, d, s, n, i),
        Instruction::Jump(l10) => rt_jump(l10, false),
        Instruction::JumpOffset(l10) => rt_jump(l10, true),
        Instruction::SetAndSave(d, s, link) => rt_link(d, s, link, false),
        Instruction::AddAndSave(d, s, link) => rt_link(d, s, link, true),
        Instruction::Stack(r, sp, op) => rt_stack(r, sp, op),
        Instruction::LoadStackOffset(d, base, n) => rt_nib(0xe, d, base, n, i),
        Instruction::System(a, b, n) => rt_nib(0xf, a, b, n, i),
        Instruction::Invalid(_) => {
        },
    }
}


/// Whatever a word decodes to carries only in-range literals.
pub proof fn lemma_decode_wf(word: u16)
    ensures
        Instruction::spec_decode(word) matches Ok(i) ==> i.wf(),
{
    lemma_decode_fields(word);
}

/// Round trip of a type A word.
proof fn rt_imm(r: Register, l12: Literal12Bit)
    requires
        l12.wf(),
    ensures
        Instruction::spec_decode(Instruction::Imm(r, l12).spec_encode()) == Ok::<
            Instruction,
            EncodingError,
        >(Instruction::Imm(r, l12)),
{
    let v = l12.value;
    assert(v & 0xfff == v) by (bit_vector)
        requires
            v < 0x1000,
    ;
    lemma_word_a_fields(r.spec_code() as u16, v);
    lemma_reg_of_code(r);
}

/// Round trip of the three-register layouts.
proof fn rt_b3(op: u16, r1: Register, r2: Register, r3: Register, i: Instruction)
    requires
        op == 0x1 ==> i == Instruction::Add(r1, r2, r3),
        op == 0x2 ==> i == Instruction::Sub(r1, r2, r3),
        op == 0x8 ==> i == Instruction::Load(r1, r2, r3),
        op == 0x9 ==> i == Instruction::Store(r1, r2, r3),
        op == 0x1 || op == 0x2 || op == 0x8 || op == 0x9,
    ensures
        Instruction::spec_decode(i.spec_encode()) == Ok::<Instruction, EncodingError>(i),
{
    lemma_round_trip_b3(op, r1, r2, r3);
}

/// Round trip of the register-and-7-bit-literal layouts.
proof fn rt_l7(op: u16, d: Register, l7: Literal7Bit, i: Instruction)
    requires
        l7.wf(),
        op == 0x3 ==> i == Instruction::AddImm(d, l7),
        op == 0x4 ==> i == Instruction::AddImmSigned(d, l7),
        op == 0x3 || op == 0x4,
    ensures
        Instruction::spec_decode(i.spec_encode()) == Ok::<Instruction, EncodingError>(i),
{
    lemma_round_trip_l7(op, d, l7);
}

/// Round trip of the two-register-and-nibble layouts.
proof fn rt_nib(op: u16, r1: Register, r2: Register, n: Nibble, i: Instruction)
    requires
        n.wf(),
        op == 0x5 ==> i == Instruction::ShiftLeft(r1, r2, n),
        op == 0x6 ==> i == Instruction::ShiftRightLogical(r1, r2, n),
        op == 0x7 ==> i == Instruction::ShiftRightArithmetic(r1, r2, n),
        op == 0xb ==> i == Instruction::AddIf(r1, r2, n),
        op == 0xe ==> i == Instruction::LoadStackOffset(r1, r2, n),
        op == 0xf ==> i == Instruction::System(r1, r2, n),
        op == 0x5 || op == 0x6 || op == 0x7 || op == 0xb || op == 0xe || op == 0xf,
    ensures
        Instruction::spec_decode(i.spec_encode()) == Ok::<Instruction, EncodingError>(i),
{
    lemma_round_trip_nib(op, r1, r2, n);
}

/// Round trip of `Test`.
proof fn rt_test(a: Register, b: Register, t: TestOp)
    ensures
        Instruction::spec_decode(Instruction::Test(a, b, t).spec_encode()) == Ok::<
            Instruction,
            EncodingError,
        >(Instruction::Test(a, b, t)),
{
    lemma_word_b_fields(0xa, a.spec_code() as u16, b.spec_code() as u16, t.spec_code());
    let c = t.spec_code();
    assert(c & 0xf == c) by (bit_vector)
        requires
            c <= 8,
    ;
    lemma_reg_of_code(a);
    lemma_reg_of_code(b);
    assert(TestOp::spec_from_u16(t.spec_code()) == Some(t));
}

/// Round trip of `Stack`.
proof fn rt_stack(r: Register, sp: Register, op: StackOp)
    ensures
        Instruction::spec_decode(Instruction::Stack(r, sp, op).spec_encode()) == Ok::<
            Instruction,
            EncodingError,
        >(Instruction::Stack(r, sp, op)),
{
    lemma_word_b_fields(0xd, r.spec_code() as u16, sp.spec_code() as u16, op.spec_code());
    lemma_sub_codes(op.spec_code());
    lemma_reg_of_code(r);
    lemma_reg_of_code(sp);
    assert(StackOp::spec_from_u16(op.spec_code()) == Some(op));
}

/// Round trip of the two jump layouts.
proof fn rt_jump(l10: Literal10Bit, far: bool)
    requires
        l10.wf(),
    ensures
        !far ==> Instruction::spec_decode(Instruction::Jump(l10).spec_encode()) == Ok::<
            Instruction,
            EncodingError,
        >(Instruction::Jump(l10)),
        far ==> Instruction::spec_decode(Instruction::JumpOffset(l10).spec_encode()) == Ok::<
            Instruction,
            EncodingError,
        >(Instruction::JumpOffset(l10)),
{
    let v = l10.value;
    assert(v & 0x3ff == v) by (bit_vector)
        requires
            v < 0x400,
    ;
    lemma_word_l10_fields(v);
}

/// Round trip of the two link layouts.
proof fn rt_link(d: Register, s: Register, link: Register, add: bool)
    ensures
        !add ==> Instruction::spec_decode(Instruction::SetAndSave(d, s, link).spec_encode())
            == Ok::<Instruction, EncodingError>(Instruction::SetAndSave(d, s, link)),
        add ==> Instruction::spec_decode(Instruction::AddAndSave(d, s, link).spec_encode()) == Ok::<
            Instruction,
            EncodingError,
        >(Instruction::AddAndSave(d, s, link)),
{
    lemma_sub_codes(link.spec_code() as u16);
    lemma_word_b_fields(
        0x0,
        d.spec_code() as u16,
        s.spec_code() as u16,
        (link.spec_code() as u16) | 0x8,
    );
    lemma_word_b_fields(
        0x0,
        d.spec_code() as u16,
        s.spec_code() as u16,
        (link.spec_code() as u16) | 0x10,
    );
    lemma_reg_of_code(d);
    lemma_reg_of_code(s);
    lemma_reg_of_code(link);
}

/// Round trip for the three-register type B layouts.
pub(crate) proof fn lemma_round_trip_b3(op: u16, r1: Register, r2: Register, r3: Register)
    requires
        op < 0x10,
    ensures
        ({
            let w = spec_word_b(op, r1, r2, r3.spec_code() as u16);
            &&& w & 0x8000 == 0x8000
            &&& w & 0xf == op
            &&& reg_of_code((w >> 12) & 0x7) == r1
            &&& reg_of_code((w >> 9) & 0x7) == r2
            &&& reg_of_code((w >> 4) & 0x7) == r3
            &&& (w >> 7) & 0x3 == ((r3.spec_code() as u16) >> 3) & 0x3
        }),
{
    lemma_word_b_fields(op, r1.spec_code() as u16, r2.spec_code() as u16, r3.spec_code() as u16);
    lemma_sub_codes(r3.spec_code() as u16);
    lemma_reg_of_code(r1);
    lemma_reg_of_code(r2);
    lemma_reg_of_code(r3);
}

/// Round trip for the two-register-and-nibble type B layouts.
pub(crate) proof fn lemma_round_trip_nib(op: u16, r1: Register, r2: Register, n: Nibble)
    requires
        op < 0x10,
        n.wf(),
    ensures
        ({
            let w = spec_word_b(op, r1, r2, ((n.value as u16) & 0xf));
            &&& w & 0x8000 == 0x8000
            &&& w & 0xf == op
            &&& reg_of_code((w >> 12) & 0x7) == r1
            &&& reg_of_code((w >> 9) & 0x7) == r2
            &&& (w >> 4) & 0xf == n.value
        }),
{
    let v = n.value as u16;
    assert(v & 0xf == v) by (bit_vector)
        requires
            v < 0x10,
    ;
    lemma_word_b_fields(op, r1.spec_code() as u16, r2.spec_code() as u16, v);
    lemma_reg_of_code(r1);
    lemma_reg_of_code(r2);
}

/// Round trip for the register-and-7-bit-literal type B layouts.
pub(crate) proof fn lemma_round_trip_l7(op: u16, r1: Register, l: Literal7Bit)
    requires
        op < 0x10,
        l.wf(),
    ensures
        ({
            let w = spec_word_b(op, r1, Register::Zero, ((l.value as u16) & 0x7f));
            &&& w & 0x8000 == 0x8000
            &&& w & 0xf == op
            &&& reg_of_code((w >> 12) & 0x7) == r1
            &&& (w >> 4) & 0x7f == l.value
        }),
{
    let v = l.value as u16;
    assert(v & 0x7f == v) by (bit_vector)
        requires
            v < 0x80,
    ;
    lemma_word_l7_fields(op, r1.spec_code() as u16, v);
    lemma_reg_of_code(r1);
}

} // verus!
