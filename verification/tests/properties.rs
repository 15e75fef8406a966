use flipvm::op::Instruction::{Imm, Add, Sub, AddImm, AddImmSigned, ShiftLeft, ShiftRightLogical,
    ShiftRightArithmetic, Load, Store, Test, AddIf, Jump, JumpOffset, SetAndSave, AddAndSave, Stack,
    LoadStackOffset, System, Invalid};
use flipvm::op::{
    EncodingError, Instruction, Literal10Bit, Literal12Bit, Literal7Bit, Nibble, StackOp, TestOp,
};
use flipvm::legacy::InstructionPart;
use flipvm::Register;
use flipvm::Register::{Zero, A, B, C, M, SP, PC, BP};

#[test]
fn literal_bounds() {
    assert!(Nibble::new_checked(15).is_some());
    assert!(Nibble::new_checked(16).is_none());
    assert!(Literal7Bit::new_checked(0x7f).is_some());
    assert!(Literal7Bit::new_checked(0x80).is_none());
    assert!(Literal10Bit::new_checked(0x3ff).is_some());
    assert!(Literal10Bit::new_checked(0x400).is_none());
    assert!(Literal12Bit::new_checked(0xfff).is_some());
    assert!(Literal12Bit::new_checked(0x1000).is_none());
}

#[test]
fn signed_literal_round_trip() {
    for n in -63i8..=63i8 {
        let lit = Literal7Bit::from_signed(n).unwrap();
        assert_eq!(lit.as_signed(), n);
    }
    assert!(Literal7Bit::from_signed(-64).is_none());
    assert!(Literal7Bit::from_signed(64).is_none());
}

#[test]
fn register_codes() {
    for code in 0u8..8 {
        let r = Register::from_u8(code).unwrap();
        assert_eq!(r as u8, code);
    }
    assert!(Register::from_u8(8).is_none());
    // The three field positions never overlap.
    for a in 0u8..8 {
        for b in 0u8..8 {
            let ra = Register::from_u8(a).unwrap();
            let rb = Register::from_u8(b).unwrap();
            assert_eq!(ra.as_mask_first() & rb.as_mask_second(), 0);
            assert_eq!(ra.as_mask_first() & rb.as_mask_third(), 0);
            assert_eq!(ra.as_mask_second() & rb.as_mask_third(), 0);
        }
    }
}

#[test]
fn register_field_extraction() {
    let w = A.as_mask_first() | B.as_mask_second() | C.as_mask_third();
    assert_eq!(Register::from_instruction_first(w), Some(A));
    assert_eq!(Register::from_instruction_second(w), Some(B));
    assert_eq!(Register::from_instruction_third(w), Some(C));
}

#[test]
fn encode_decode_round_trip() {
    let ops = vec![
        Imm(M, Literal12Bit::new_checked(0x130).unwrap()),
        Add(C, B, A),
        Sub(PC, BP, SP),
        AddImm(C, Literal7Bit::new_checked(0x20).unwrap()),
        AddImmSigned(A, Literal7Bit::from_signed(-7).unwrap()),
        ShiftLeft(M, BP, Nibble::new_checked(0xe).unwrap()),
        ShiftRightLogical(M, BP, Nibble::new_checked(0xe).unwrap()),
        ShiftRightArithmetic(M, BP, Nibble::new_checked(0xe).unwrap()),
        Load(A, C, M),
        Store(C, A, M),
        Test(BP, A, TestOp::Gte),
        AddIf(PC, PC, Nibble::new_checked(0x0).unwrap()),
        Jump(Literal10Bit::new_checked(1000).unwrap()),
        JumpOffset(Literal10Bit::new_checked(0x3ff).unwrap()),
        SetAndSave(PC, B, C),
        AddAndSave(PC, A, B),
        Stack(B, SP, StackOp::Dup),
        Stack(A, SP, StackOp::Rotate),
        LoadStackOffset(A, BP, Nibble::new_checked(0x3).unwrap()),
        System(A, B, Nibble::new_checked(0x3).unwrap()),
    ];
    for ins in ops {
        assert_eq!(Instruction::decode(ins.encode_u16()), Ok(ins));
    }
}

#[test]
fn decode_rejects_bad_sub_ops() {
    // Opcode 0xa with test-operation code 9: no predicate has it.
    let bad_test: u16 = 0x8000 | 0xa | (9 << 4);
    assert_eq!(
        Instruction::decode(bad_test),
        Err(EncodingError::BadTestOp(9))
    );
    // Opcode 0xd with stack-operation code 12: no operation has it.
    let bad_stack: u16 = 0x8000 | 0xd | (12 << 4);
    assert_eq!(
        Instruction::decode(bad_stack),
        Err(EncodingError::BadStackOp(12))
    );
}

#[test]
fn invalid_decodes_to_itself() {
    // Bit 15 set, opcode 0x0, and neither link pattern in bits 7..8.
    let w: u16 = 0x8000;
    assert_eq!(Instruction::decode(w), Ok(Invalid(w)));
    assert_eq!(Invalid(w).encode_u16(), w);
}

#[test]
fn test_op_codes_round_trip() {
    let ops = [
        TestOp::Eq,
        TestOp::Neq,
        TestOp::Lt,
        TestOp::Lte,
        TestOp::Gt,
        TestOp::Gte,
        TestOp::BothZero,
        TestOp::EitherNonZero,
        TestOp::BothNonZero,
    ];
    for op in ops {
        assert_eq!(TestOp::from_u16(op.code()), Some(op));
    }
    assert_eq!(TestOp::from_u16(9), None);
}

#[test]
fn stack_op_codes_round_trip() {
    let ops = [
        StackOp::Pop,
        StackOp::Push,
        StackOp::Peek,
        StackOp::Swap,
        StackOp::Dup,
        StackOp::Rotate,
        StackOp::Add,
        StackOp::Sub,
    ];
    for op in ops {
        assert_eq!(StackOp::from_u16(op.code()), Some(op));
    }
    assert_eq!(StackOp::from_u16(8), None);
}

#[test]
fn instruction_part_fields_round_trip() {
    let n = Nibble::new(0xe);
    assert_eq!(Nibble::from_instruction(n.as_mask()), n);
    let l7 = Literal7Bit::new(0x55);
    assert_eq!(Literal7Bit::from_instruction(l7.as_mask()), l7);
    let l10 = Literal10Bit::new(0x2aa);
    assert_eq!(Literal10Bit::from_instruction(l10.as_mask()), l10);
}
