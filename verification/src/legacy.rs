//! An earlier revision of the instruction set, kept alongside the
//! current one.
//!
//! It differs from [`crate::op`] in three ways: `Imm` carries a bare
//! word (truncated to 12 bits on encoding), `AddIf` takes a single
//! register and a nibble, and there are no `JumpOffset`, `SetAndSave`,
//! `AddAndSave` or `Invalid` variants — a type B word with opcode `0x0`
//! does not decode. The word layout is otherwise the same, and encoding
//! and decoding round-trip just as the current set's do.

use vstd::prelude::*;

use crate::op::EncodingError;
use crate::op::Literal10Bit;
use crate::op::Literal7Bit;
use crate::op::Nibble;
use crate::op::StackOp;
use crate::op::TestOp;
use crate::op::lemma_reg_of_code;
use crate::op::reg_of_code;
use crate::op::spec_word_b;
use crate::op::word_b;
use crate::register::Register;

verus! {

/// A failure while reading an instruction from its textual form: an
/// empty line, or a reason the text does not name an instruction.
pub enum InstructionParseError {
    NoContent,
    Fail(String),
}

impl From<String> for InstructionParseError {
    /// Wrap a reason as a parse failure.
    fn from(s: String) -> (r: InstructionParseError) {
        InstructionParseError::Fail(s)
    }
}

impl vstd::std_specs::convert::FromSpecImpl<String> for InstructionParseError {
    open spec fn obeys_from_spec() -> bool {
        true
    }

    open spec fn from_spec(s: String) -> InstructionParseError {
        InstructionParseError::Fail(s)
    }
}

/// An operand that owns a field of an instruction word: it can place
/// itself into the field and be read back out of a word.
pub trait InstructionPart: Sized {
    /// The operand's bits, placed in its field of the word.
    spec fn spec_mask(&self) -> u16;

    /// The operand a word's field holds.
    spec fn spec_extract(ins: u16) -> Self;

    fn as_mask(&self) -> (r: u16)
        ensures
            r == self.spec_mask(),
    ;

    fn from_instruction(ins: u16) -> (r: Self)
        ensures
            r == Self::spec_extract(ins),
    ;
}

impl InstructionPart for Nibble {
    open spec fn spec_mask(&self) -> u16 {
        ((self.value as u16) & 0xf) << 4
    }

    open spec fn spec_extract(ins: u16) -> Nibble {
        Nibble { value: ((ins >> 4) & 0xf) as u8 }
    }

    fn as_mask(&self) -> (r: u16) {
        ((self.value as u16) & 0xf) << 4
    }

    fn from_instruction(ins: u16) -> (r: Nibble) {
        Nibble { value: ((ins >> 4) & 0xf) as u8 }
    }
}

impl InstructionPart for Literal7Bit {
    open spec fn spec_mask(&self) -> u16 {
        ((self.value as u16) & 0x7f) << 4
    }

    open spec fn spec_extract(ins: u16) -> Literal7Bit {
        Literal7Bit { value: ((ins >> 4) & 0x7f) as u8 }
    }

    fn as_mask(&self) -> (r: u16) {
        ((self.value as u16) & 0x7f) << 4
    }

    fn from_instruction(ins: u16) -> (r: Literal7Bit) {
        Literal7Bit { value: ((ins >> 4) & 0x7f) as u8 }
    }
}

impl InstructionPart for Literal10Bit {
    open spec fn spec_mask(&self) -> u16 {
        (self.value & 0x3ff) << 4
    }

    open spec fn spec_extract(ins: u16) -> Literal10Bit {
        Literal10Bit { value: (ins >> 4) & 0x3ff }
    }

    fn as_mask(&self) -> (r: u16) {
        (self.value & 0x3ff) << 4
    }

    fn from_instruction(ins: u16) -> (r: Literal10Bit) {
        Literal10Bit { value: (ins >> 4) & 0x3ff }
    }
}

/// One instruction of the draft set.
#[derive(Clone, Copy, Debug, PartialEq, Eq, Structural)]
pub enum Instruction {
    Imm(Register, u16),
    Add(Register, Register, Register),
    Sub(Register, Register, Register),
    AddImm(Register, Literal7Bit),
    AddImmSigned(Register, Literal7Bit),
    ShiftLeft(Register, Register, Nibble),
    ShiftRightLogical(Register, Register, Nibble),
    ShiftRightArithmetic(Register, Register, Nibble),
    Load(Register, Register, Register),
    Store(Register, Register, Register),
    Test(Register, Register, TestOp),
    AddIf(Register, Nibble),
    Jump(Literal10Bit),
    Stack(Register, Register, StackOp),
    LoadStackOffset(Register, Register, Nibble),
    System(Register, Register, Nibble),
}

impl Instruction {
    /// Every bounded literal carried by the instruction is in range;
    /// an `Imm` word is truncated on encoding, so any carried word that
    /// exceeds 12 bits is not well formed.
    pub open spec fn wf(self) -> bool {
        match self {
            Instruction::Imm(_, w) => w < 0x1000,
            Instruction::AddImm(_, l7) => l7.wf(),
            Instruction::AddImmSigned(_, l7) => l7.wf(),
            Instruction::ShiftLeft(_, _, n) => n.wf(),
            Instruction::ShiftRightLogical(_, _, n) => n.wf(),
            Instruction::ShiftRightArithmetic(_, _, n) => n.wf(),
            Instruction::AddIf(_, n) => n.wf(),
            Instruction::Jump(l10) => l10.wf(),
            Instruction::LoadStackOffset(_, _, n) => n.wf(),
            Instruction::System(_, _, n) => n.wf(),
            _ => true,
        }
    }

    /// The word this instruction encodes as.
    pub open spec fn spec_encode(self) -> u16 {
        match self {
            Instruction::Imm(r, w) => ((r.spec_code() as u16) << 12) | (w & 0xfff),
            Instruction::Add(a, b, c) => spec_word_b(0x1, a, b, c.spec_code() as u16),
            Instruction::Sub(a, b, c) => spec_word_b(0x2, a, b, c.spec_code() as u16),
            Instruction::AddImm(d, l7) => spec_word_b(
                0x3,
                d,
                Register::Zero,
                ((l7.value as u16) & 0x7f),
            ),
            Instruction::AddImmSigned(d, l7) => spec_word_b(
                0x4,
                d,
                Register::Zero,
                ((l7.value as u16) & 0x7f),
            ),
            Instruction::ShiftLeft(s, d, n) => spec_word_b(0x5, s, d, ((n.value as u16) & 0xf)),
            Instruction::ShiftRightLogical(s, d, n) => spec_word_b(
                0x6,
                s,
                d,
                ((n.value as u16) & 0xf),
            ),
            Instruction::ShiftRightArithmetic(s, d, n) => spec_word_b(
                0x7,
                s,
                d,
                ((n.value as u16) & 0xf),
            ),
            Instruction::Load(d, lo, hi) => spec_word_b(0x8, d, lo, hi.spec_code() as u16),
            Instruction::Store(s, lo, hi) => spec_word_b(0x9, s, lo, hi.spec_code() as u16),
            Instruction::Test(a, b, t) => spec_word_b(0xa, a, b, t.spec_code()),
            Instruction::AddIf(d, n) => spec_word_b(
                0xb,
                d,
                Register::Zero,
                ((n.value as u16) & 0xf),
            ),
            Instruction::Jump(l10) => 0x8000u16 | 0xc | ((l10.value & 0x3ff) << 4),
            Instruction::Stack(r, sp, op) => spec_word_b(0xd, r, sp, op.spec_code()),
            Instruction::LoadStackOffset(d, base, n) => spec_word_b(
                0xe,
                d,
                base,
                ((n.value as u16) & 0xf),
            ),
            Instruction::System(a, b, n) => spec_word_b(0xf, a, b, ((n.value as u16) & 0xf)),
        }
    }

    /// The instruction a word decodes to, or why it does not.
    pub open spec fn spec_decode(word: u16) -> Result<Instruction, EncodingError> {
        if word & 0x8000 == 0 {
            Ok(Instruction::Imm(reg_of_code((word >> 12) & 0x7), word & 0xfff))
        } else {
            let op = word & 0xf;
            let r1 = reg_of_code((word >> 12) & 0x7);
            let r2 = reg_of_code((word >> 9) & 0x7);
            let r3 = reg_of_code((word >> 4) & 0x7);
            let nib = Nibble { value: ((word >> 4) & 0xf) as u8 };
            if op == 0x1 {
                Ok(Instruction::Add(r1, r2, r3))
            } else if op == 0x2 {
                Ok(Instruction::Sub(r1, r2, r3))
            } else if op == 0x3 {
                Ok(Instruction::AddImm(r1, Literal7Bit { value: ((word >> 4) & 0x7f) as u8 }))
            } else if op == 0x4 {
                Ok(Instruction::AddImmSigned(r1, Literal7Bit { value: ((word >> 4) & 0x7f) as u8 }))
            } else if op == 0x5 {
                Ok(Instruction::ShiftLeft(r1, r2, nib))
            } else if op == 0x6 {
                Ok(Instruction::ShiftRightLogical(r1, r2, nib))
            } else if op == 0x7 {
                Ok(Instruction::ShiftRightArithmetic(r1, r2, nib))
            } else if op == 0x8 {
                Ok(Instruction::Load(r1, r2, r3))
            } else if op == 0x9 {
                Ok(Instruction::Store(r1, r2, r3))
            } else if op == 0xa {
                match TestOp::spec_from_u16((word >> 4) & 0xf) {
                    Some(t) => Ok(Instruction::Test(r1, r2, t)),
                    None => Err(EncodingError::BadTestOp((word >> 4) & 0xf)),
                }
            } else if op == 0xb {
                Ok(Instruction::AddIf(r1, nib))
            } else if op == 0xc {
                Ok(Instruction::Jump(Literal10Bit { value: (word >> 4) & 0x3ff }))
            } else if op == 0xd {
                match StackOp::spec_from_u16((word >> 4) & 0xf) {
                    Some(s) => Ok(Instruction::Stack(r1, r2, s)),
                    None => Err(EncodingError::BadStackOp((word >> 4) & 0xf)),
                }
            } else if op == 0xe {
                Ok(Instruction::LoadStackOffset(r1, r2, nib))
            } else if op == 0xf {
                Ok(Instruction::System(r1, r2, nib))
            } else {
                Err(EncodingError::BadOpcode(op))
            }
        }
    }

    /// Encode this instruction as a 16-bit word.
    pub fn encode_u16(&self) -> (w: u16)
        ensures
            w == self.spec_encode(),
    {
        match *self {
            Instruction::Imm(r, v) => r.as_mask_first() | (v & 0xfff),
            Instruction::Add(a, b, c) => word_b(0x1, a, b, c.code() as u16),
            Instruction::Sub(a, b, c) => word_b(0x2, a, b, c.code() as u16),
            Instruction::AddImm(d, l7) => word_b(0x3, d, Register::Zero, (l7.value as u16) & 0x7f),
            Instruction::AddImmSigned(d, l7) => word_b(
                0x4,
                d,
                Register::Zero,
                (l7.value as u16) & 0x7f,
            ),
            Instruction::ShiftLeft(s, d, n) => word_b(0x5, s, d, (n.value as u16) & 0xf),
            Instruction::ShiftRightLogical(s, d, n) => word_b(0x6, s, d, (n.value as u16) & 0xf),
            Instruction::ShiftRightArithmetic(s, d, n) => word_b(0x7, s, d, (n.value as u16) & 0xf),
            Instruction::Load(d, lo, hi) => word_b(0x8, d, lo, hi.code() as u16),
            Instruction::Store(s, lo, hi) => word_b(0x9, s, lo, hi.code() as u16),
            Instruction::Test(a, b, t) => word_b(0xa, a, b, t.code()),
            Instruction::AddIf(d, n) => word_b(0xb, d, Register::Zero, (n.value as u16) & 0xf),
            Instruction::Jump(l10) => 0x8000u16 | 0xc | ((l10.value & 0x3ff) << 4),
            Instruction::Stack(r, sp, op) => word_b(0xd, r, sp, op.code()),
            Instruction::LoadStackOffset(d, base, n) => word_b(0xe, d, base, (n.value as u16) & 0xf),
            Instruction::System(a, b, n) => word_b(0xf, a, b, (n.value as u16) & 0xf),
        }
    }

    /// Decode a 16-bit word.
    pub fn try_from_u16(word: u16) -> (r: Result<Instruction, EncodingError>)
        ensures
            r == Self::spec_decode(word),
    {
        proof {
            crate::op::lemma_decode_fields(word);
        }
        if word & 0x8000 == 0 {
            let r1 = match Register::from_u8(((word >> 12) & 0x7) as u8) {
                Some(r) => r,
                None => Register::Zero,
            };
            proof {
                lemma_reg_of_code(r1);
            }
            Ok(Instruction::Imm(r1, word & 0xfff))
        } else {
            let op = word & 0xf;
            let r1 = match Register::from_u8(((word >> 12) & 0x7) as u8) {
                Some(r) => r,
                None => Register::Zero,
            };
            let r2 = match Register::from_u8(((word >> 9) & 0x7) as u8) {
                Some(r) => r,
                None => Register::Zero,
            };
            let r3 = match Register::from_u8(((word >> 4) & 0x7) as u8) {
                Some(r) => r,
                None => Register::Zero,
            };
            proof {
                lemma_reg_of_code(r1);
                lemma_reg_of_code(r2);
                lemma_reg_of_code(r3);
            }
            let nib = Nibble { value: ((word >> 4) & 0xf) as u8 };
            if op == 0x1 {
                Ok(Instruction::Add(r1, r2, r3))
            } else if op == 0x2 {
                Ok(Instruction::Sub(r1, r2, r3))
            } else if op == 0x3 {
                Ok(Instruction::AddImm(r1, Literal7Bit { value: ((word >> 4) & 0x7f) as u8 }))
            } else if op == 0x4 {
                Ok(Instruction::AddImmSigned(r1, Literal7Bit { value: ((word >> 4) & 0x7f) as u8 }))
            } else if op == 0x5 {
                Ok(Instruction::ShiftLeft(r1, r2, nib))
            } else if op == 0x6 {
                Ok(Instruction::ShiftRightLogical(r1, r2, nib))
            } else if op == 0x7 {
                Ok(Instruction::ShiftRightArithmetic(r1, r2, nib))
            } else if op == 0x8 {
                Ok(Instruction::Load(r1, r2, r3))
            } else if op == 0x9 {
                Ok(Instruction::Store(r1, r2, r3))
            } else if op == 0xa {
                match TestOp::from_u16((word >> 4) & 0xf) {
                    Some(t) => Ok(Instruction::Test(r1, r2, t)),
                    None => Err(EncodingError::BadTestOp((word >> 4) & 0xf)),
                }
            } else if op == 0xb {
                Ok(Instruction::AddIf(r1, nib))
            } else if op == 0xc {
                Ok(Instruction::Jump(Literal10Bit { value: (word >> 4) & 0x3ff }))
            } else if op == 0xd {
                match StackOp::from_u16((word >> 4) & 0xf) {
                    Some(s) => Ok(Instruction::Stack(r1, r2, s)),
                    None => Err(EncodingError::BadStackOp((word >> 4) & 0xf)),
                }
            } else if op == 0xe {
                Ok(Instruction::LoadStackOffset(r1, r2, nib))
            } else if op == 0xf {
                Ok(Instruction::System(r1, r2, nib))
            } else {
                Err(EncodingError::BadOpcode(op))
            }
        }
    }
}

/// The draft set's encoding round trip: decoding the word a well-formed
/// instruction encodes as gives the instruction back.
pub proof fn lemma_encode_round_trip(i: Instruction)
    requires
        i.wf(),
    ensures
        Instruction::spec_decode(i.spec_encode()) == Ok::<Instruction, EncodingError>(i),
{
    match i {
        Instruction::Imm(r, v) => rt_imm(r, v),
        Instruction::Add(a, b, c) => rt_b3(0x1, a, b, c, i),
        Instruction::Sub(a, b, c) => rt_b3(0x2, a, b, c, i),
        Instruction::AddImm(d, l7) => rt_l7(0x3, d, l7, i),
        Instruction::AddImmSigned(d, l7) => rt_l7(0x4, d, l7, i),
        Instruction::ShiftLeft(s, d, n) => rt_nib(0x5, s, d, n, i),
        Instruction::ShiftRightLogical(s, d, n) => rt_nib(0x6, s, d, n, i),
        Instruction::ShiftRightArithmetic(s, d, n) => rt_nib(0x7, s, d, n, i),
        Instruction::Load(d, lo, hi) => rt_b3(0x8, d, lo, hi, i),
        Instruction::Store(s, lo, hi) => rt_b3(0x9, s, lo, hi, i),
        Instruction::Test(a, b, t) => rt_test(a, b, t),
        Instruction::AddIf(d, n) => rt_nib(0xb, d, Register::Zero, n, i),
        Instruction::Jump(l10) => rt_jump(l10),
        Instruction::Stack(r, sp, op) => rt_stack(r, sp, op),
        Instruction::LoadStackOffset(d, base, n) => rt_nib(0xe, d, base, n, i),
        Instruction::System(a, b, n) => rt_nib(0xf, a, b, n, i),
    }
}

/// Round trip of a draft type A word.
proof fn rt_imm(r: Register, v: u16)
    requires
        v < 0x1000,
    ensures
        Instruction::spec_decode(Instruction::Imm(r, v).spec_encode()) == Ok::<
            Instruction,
            EncodingError,
        >(Instruction::Imm(r, v)),
{
    assert(v & 0xfff == v) by (bit_vector)
        requires
            v < 0x1000,
    ;
    crate::op::lemma_word_a_fields(r.spec_code() as u16, v);
    lemma_reg_of_code(r);
}

/// Round trip of the draft three-register layouts.
proof fn rt_b3(op: u16, r1: Register, r2: Register, r3: Register, i: Instruction)
    requires
        op == 0x1 ==> i == Instruction::Add(r1, r2, r3),
        op == 0x2 ==> i == Instruction::Sub(r1, r2, r3),
        op == 0x8 ==> i == Instruction::Load(r1, r2, r3),
        op == 0x9 ==> i == Instruction::Store(r1, r2, r3),
        op == 0x1 || op == 0x2 || op == 0x8 || op == 0x9,
    ensures
        Instruction::spec_decode(i.spec_encode()) == Ok::<Instruction, EncodingError>(i),
{
    crate::op::lemma_round_trip_b3(op, r1, r2, r3);
}

/// Round trip of the draft register-and-7-bit-literal layouts.
proof fn rt_l7(op: u16, d: Register, l7: Literal7Bit, i: Instruction)
    requires
        l7.wf(),
        op == 0x3 ==> i == Instruction::AddImm(d, l7),
        op == 0x4 ==> i == Instruction::AddImmSigned(d, l7),
        op == 0x3 || op == 0x4,
    ensures
        Instruction::spec_decode(i.spec_encode()) == Ok::<Instruction, EncodingError>(i),
{
    crate::op::lemma_round_trip_l7(op, d, l7);
}

/// Round trip of the draft nibble layouts.
proof fn rt_nib(op: u16, r1: Register, r2: Register, n: Nibble, i: Instruction)
    requires
        n.wf(),
        op == 0x5 ==> i == Instruction::ShiftLeft(r1, r2, n),
        op == 0x6 ==> i == Instruction::ShiftRightLogical(r1, r2, n),
        op == 0x7 ==> i == Instruction::ShiftRightArithmetic(r1, r2, n),
        op == 0xb ==> i == Instruction::AddIf(r1, n) && r2 == Register::Zero,
        op == 0xe ==> i == Instruction::LoadStackOffset(r1, r2, n),
        op == 0xf ==> i == Instruction::System(r1, r2, n),
        op == 0x5 || op == 0x6 || op == 0x7 || op == 0xb || op == 0xe || op == 0xf,
    ensures
        Instruction::spec_decode(i.spec_encode()) == Ok::<Instruction, EncodingError>(i),
{
    crate::op::lemma_round_trip_nib(op, r1, r2, n);
}

/// Round trip of the draft `Test` layout.
proof fn rt_test(a: Register, b: Register, t: TestOp)
    ensures
        Instruction::spec_decode(Instruction::Test(a, b, t).spec_encode()) == Ok::<
            Instruction,
            EncodingError,
        >(Instruction::Test(a, b, t)),
{
    crate::op::lemma_word_b_fields(
        0xa,
        a.spec_code() as u16,
        b.spec_code() as u16,
        t.spec_code(),
    );
    let c = t.spec_code();
    assert(c & 0xf == c) by (bit_vector)
        requires
            c <= 8,
    ;
    lemma_reg_of_code(a);
    lemma_reg_of_code(b);
}

/// Round trip of the draft `Jump` layout.
proof fn rt_jump(l10: Literal10Bit)
    requires
        l10.wf(),
    ensures
        Instruction::spec_decode(Instruction::Jump(l10).spec_encode()) == Ok::<
            Instruction,
            EncodingError,
        >(Instruction::Jump(l10)),
{
    let v = l10.value;
    assert(v & 0x3ff == v) by (bit_vector)
        requires
            v < 0x400,
    ;
    crate::op::lemma_word_l10_fields(v);
}

/// Round trip of the draft `Stack` layout.
proof fn rt_stack(r: Register, sp: Register, op: StackOp)
    ensures
        Instruction::spec_decode(Instruction::Stack(r, sp, op).spec_encode()) == Ok::<
            Instruction,
            EncodingError,
        >(Instruction::Stack(r, sp, op)),
{
    crate::op::lemma_word_b_fields(
        0xd,
        r.spec_code() as u16,
        sp.spec_code() as u16,
        op.spec_code(),
    );
    crate::op::lemma_sub_codes(op.spec_code());
    lemma_reg_of_code(r);
    lemma_reg_of_code(sp);
}

} // verus!
