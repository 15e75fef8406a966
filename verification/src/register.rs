//! The register and flag model of the machine.
//!
//! Eight registers are identified by a 3-bit code; three field positions
//! inside a 16-bit instruction word hold such a code.

use vstd::prelude::*;

use crate::text::str_eq;

verus! {

/// A condition flag, one bit of the machine's 16-bit flag word.
///
/// `Compare` is latched by `Test` instructions; `HasJumped` records that
/// the instruction just executed wrote the program counter itself.
#[derive(Clone, Copy, Debug, PartialEq, Eq, Structural)]
pub enum Flag {
    Compare,
    HasJumped,
}

impl Flag {
    /// The bit this flag occupies inside the flag word.
    pub open spec fn spec_mask(self) -> u16 {
        match self {
            Flag::Compare => 0x1,
            Flag::HasJumped => 0x2,
        }
    }

    #[verifier::when_used_as_spec(spec_mask)]
    pub fn mask(self) -> (r: u16)
        ensures
            r == self.spec_mask(),
    {
        match self {
            Flag::Compare => 0x1,
            Flag::HasJumped => 0x2,
        }
    }
}

/// One of the eight registers, encoded `Zero = 0` through `BP = 7`.
///
/// `Zero` reads as 0 and discards writes; `PC` is the program counter;
/// `SP` and `BP` are ordinary registers that only explicit stack
/// instructions treat specially.
#[derive(Clone, Copy, Debug, PartialEq, Eq, Structural)]
pub enum Register {
    Zero,
    A,
    B,
    C,
    M,
    SP,
    PC,
    BP,
}

impl Register {
    /// The 3-bit code of this register.
    pub open spec fn spec_code(self) -> u8 {
        match self {
            Register::Zero => 0,
            Register::A => 1,
            Register::B => 2,
            Register::C => 3,
            Register::M => 4,
            Register::SP => 5,
            Register::PC => 6,
            Register::BP => 7,
        }
    }

    #[verifier::when_used_as_spec(spec_code)]
    pub fn code(self) -> (r: u8)
        ensures
            r == self.spec_code(),
    {
        match self {
            Register::Zero => 0,
            Register::A => 1,
            Register::B => 2,
            Register::C => 3,
            Register::M => 4,
            Register::SP => 5,
            Register::PC => 6,
            Register::BP => 7,
        }
    }

    /// The register a 3-bit code stands for; codes 8 and above name none.
    pub open spec fn spec_from_u8(value: u8) -> Option<Register> {
        if value == 0 {
            Some(Register::Zero)
        } else if value == 1 {
            Some(Register::A)
        } else if value == 2 {
            Some(Register::B)
        } else if value == 3 {
            Some(Register::C)
        } else if value == 4 {
            Some(Register::M)
        } else if value == 5 {
            Some(Register::SP)
        } else if value == 6 {
            Some(Register::PC)
        } else if value == 7 {
            Some(Register::BP)
        } else {
            None
        }
    }

    /// Decode a register code: `Some` exactly for codes below 8, and the
    /// register returned carries the code that was given.
    pub fn from_u8(value: u8) -> (r: Option<Register>)
        ensures
            r == Self::spec_from_u8(value),
            r matches Some(reg) ==> reg.spec_code() == value,
            r is Some <==> value < 8,
    {
        match value {
            0 => Some(Register::Zero),
            1 => Some(Register::A),
            2 => Some(Register::B),
            3 => Some(Register::C),
            4 => Some(Register::M),
            5 => Some(Register::SP),
            6 => Some(Register::PC),
            7 => Some(Register::BP),
            _ => None,
        }
    }

    /// This register's code shifted into the first field, bits 12..14.
    pub open spec fn spec_mask_first(self) -> u16 {
        (self.spec_code() as u16) << 12
    }

    /// This register's code shifted into the second field, bits 9..11.
    pub open spec fn spec_mask_second(self) -> u16 {
        (self.spec_code() as u16) << 9
    }

    /// This register's code in the third field, bits 0..2.
    pub open spec fn spec_mask_third(self) -> u16 {
        self.spec_code() as u16
    }

    pub fn as_mask_first(&self) -> (r: u16)
        ensures
            r == self.spec_mask_first(),
    {
        let c = self.code();
        proof {
            lemma_low_code_masked(c as u16);
        }
        ((c as u16) & 0x7) << 12
    }

    pub fn as_mask_second(&self) -> (r: u16)
        ensures
            r == self.spec_mask_second(),
    {
        let c = self.code();
        proof {
            lemma_low_code_masked(c as u16);
        }
        ((c as u16) & 0x7) << 9
    }

    pub fn as_mask_third(&self) -> (r: u16)
        ensures
            r == self.spec_mask_third(),
    {
        let c = self.code();
        proof {
            lemma_low_code_masked(c as u16);
        }
        (c as u16) & 0x7
    }

    /// Read the register code in the first field, bits 12..14.
    pub fn from_instruction_first(ins: u16) -> (r: Option<Register>)
        ensures
            r matches Some(reg) && reg.spec_code() == (ins >> 12) & 0x7,
    {
        proof {
            lemma_field_codes_bounded(ins);
        }
        Self::from_u8(((ins & 0x7000) >> 12) as u8)
    }

    /// Read the register code in the second field, bits 9..11.
    pub fn from_instruction_second(ins: u16) -> (r: Option<Register>)
        ensures
            r matches Some(reg) && reg.spec_code() == (ins >> 9) & 0x7,
    {
        proof {
            lemma_field_codes_bounded(ins);
        }
        Self::from_u8(((ins & 0xe00) >> 9) as u8)
    }

    /// Read the register code in the third field, bits 0..2.
    pub fn from_instruction_third(ins: u16) -> (r: Option<Register>)
        ensures
            r matches Some(reg) && reg.spec_code() == ins & 0x7,
    {
        proof {
            lemma_field_codes_bounded(ins);
        }
        Self::from_u8((ins & 0x7) as u8)
    }
}

impl Register {
    /// The register's written name.
    pub open spec fn spec_name(self) -> Seq<char> {
        match self {
            Register::Zero => "Zero"@,
            Register::A => "A"@,
            Register::B => "B"@,
            Register::C => "C"@,
            Register::M => "M"@,
            Register::SP => "SP"@,
            Register::PC => "PC"@,
            Register::BP => "BP"@,
        }
    }

    /// The register a written name stands for, if any.
    pub open spec fn spec_from_name(s: Seq<char>) -> Option<Register> {
        if s == "A"@ {
            Some(Register::A)
        } else if s == "B"@ {
            Some(Register::B)
        } else if s == "C"@ {
            Some(Register::C)
        } else if s == "M"@ {
            Some(Register::M)
        } else if s == "SP"@ {
            Some(Register::SP)
        } else if s == "PC"@ {
            Some(Register::PC)
        } else if s == "BP"@ {
            Some(Register::BP)
        } else if s == "Zero"@ {
            Some(Register::Zero)
        } else {
            None
        }
    }

    /// The register's name as text.
    pub fn to_display_string(&self) -> (r: String)
        ensures
            r@ == self.spec_name(),
    {
        match self {
            Register::Zero => String::from_str("Zero"),
            Register::A => String::from_str("A"),
            Register::B => String::from_str("B"),
            Register::C => String::from_str("C"),
            Register::M => String::from_str("M"),
            Register::SP => String::from_str("SP"),
            Register::PC => String::from_str("PC"),
            Register::BP => String::from_str("BP"),
        }
    }

    /// Read a register from its written name: `Some` exactly for the
    /// eight names.
    pub fn from_name(s: &str) -> (r: Option<Register>)
        ensures
            r == Self::spec_from_name(s@),
    {
        if str_eq(s, "A") {
            Some(Register::A)
        } else if str_eq(s, "B") {
            Some(Register::B)
        } else if str_eq(s, "C") {
            Some(Register::C)
        } else if str_eq(s, "M") {
            Some(Register::M)
        } else if str_eq(s, "SP") {
            Some(Register::SP)
        } else if str_eq(s, "PC") {
            Some(Register::PC)
        } else if str_eq(s, "BP") {
            Some(Register::BP)
        } else if str_eq(s, "Zero") {
            Some(Register::Zero)
        } else {
            None
        }
    }
}

/// Masking a register code, which is below 8, with `0x7` changes nothing.
proof fn lemma_low_code_masked(c: u16)
    requires
        c < 8,
    ensures
        (c & 0x7) << 12 == c << 12,
        (c & 0x7) << 9 == c << 9,
        c & 0x7 == c,
{
    assert(c < 8 ==> ((c & 0x7) << 12 == c << 12 && (c & 0x7) << 9 == c << 9 && c & 0x7 == c))
        by (bit_vector);
}

/// Every register code extracted from an instruction word is below 8, so
/// each of the three field readers always finds a register.
proof fn lemma_field_codes_bounded(ins: u16)
    ensures
        (ins & 0x7000) >> 12 == (ins >> 12) & 0x7,
        (ins & 0xe00) >> 9 == (ins >> 9) & 0x7,
        (ins >> 12) & 0x7 < 8,
        (ins >> 9) & 0x7 < 8,
        ins & 0x7 < 8,
{
    assert((ins & 0x7000) >> 12 == (ins >> 12) & 0x7 && (ins & 0xe00) >> 9 == (ins >> 9) & 0x7
        && (ins >> 12) & 0x7 < 8 && (ins >> 9) & 0x7 < 8 && ins & 0x7 < 8) by (bit_vector);
}

/// Decoding the code of any register gives that register back, and the
/// three field positions never overlap: a code placed in one field leaves
/// the bits of the other two untouched.
pub proof fn lemma_register_encoding(r1: Register, r2: Register, r3: Register)
    ensures
        Register::spec_from_u8(r1.spec_code()) == Some(r1),
        r1.spec_mask_first() & r2.spec_mask_second() == 0,
        r1.spec_mask_first() & r3.spec_mask_third() == 0,
        r2.spec_mask_second() & r3.spec_mask_third() == 0,
{
    let c1 = r1.spec_code();
    let c2 = r2.spec_code();
    let c3 = r3.spec_code();
    assert(c1 < 8 && c2 < 8 && c3 < 8);
    assert(c1 < 8 && c2 < 8 && c3 < 8 ==> ((c1 as u16) << 12) & ((c2 as u16) << 9) == 0
        && ((c1 as u16) << 12) & (c3 as u16) == 0 && ((c2 as u16) << 9) & (c3 as u16) == 0)
        by (bit_vector);
}

} // verus!
