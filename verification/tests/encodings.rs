use flipvm::legacy::Instruction;
use flipvm::legacy::Instruction::{Imm, Add, Sub, AddImm, AddImmSigned, ShiftLeft,
    ShiftRightLogical, ShiftRightArithmetic, Load, Store, Test, AddIf, Jump, Stack,
    LoadStackOffset, System};
use flipvm::op::{Literal10Bit, Literal7Bit, Nibble, StackOp, TestOp};
use flipvm::Register::{Zero, A, B, C, M, SP, PC, BP};

#[test]
fn test_encodings() {
    let ops = vec![
        Imm(M, 0x30),
        AddImm(C, Literal7Bit::new(0x20)),
        Add(C, B, A),
        Sub(PC, BP, SP),
        AddImmSigned(A, Literal7Bit::new(0x7)),
        ShiftLeft(M, BP, Nibble::new(0xe)),
        ShiftRightLogical(M, BP, Nibble::new(0xe)),
        ShiftRightArithmetic(M, BP, Nibble::new(0xe)),
        Load(A, C, M),
        Store(C, A, M),
        Jump(Literal10Bit::new(1000)),
        Test(BP, A, TestOp::Gte),
        AddIf(PC, Nibble::new(0x0)),
        Stack(B, SP, StackOp::Dup),
        LoadStackOffset(A, BP, Nibble::new(0x3)),
        System(A, B, Nibble::new(0x3)),
    ];
    let encoded: Vec<u16> = ops.iter().map(|x| x.encode_u16()).collect();
    for (l, r) in ops.iter().zip(encoded.iter()) {
        assert_eq!(*l, Instruction::try_from_u16(*r).unwrap());
    }
}
