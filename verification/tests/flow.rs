use flipvm::op::Instruction;
use flipvm::op::{Literal10Bit, Literal12Bit, Nibble, TestOp};
use flipvm::op::Instruction::{Imm, Add, Test, AddIf, Jump, JumpOffset, SetAndSave, AddAndSave, System, Invalid};
use flipvm::Machine;
use flipvm::Register::{Zero, A, B, C, M, SP, PC, BP};
use flipvm::{Addressable, HaltHandler, Register, VmError, SIGHALT};

fn run(m: &mut Machine<HaltHandler>, program: &[Instruction]) -> Result<(), VmError> {
    let mut addr: u32 = 0;
    for ins in program {
        m.vm.memory.write2(addr, ins.encode_u16()).unwrap();
        addr += 2;
    }
    m.set_register(Register::SP, 1024 * 3);
    m.define_handler(SIGHALT, HaltHandler);
    while !m.is_halted() {
        m.step()?;
    }
    Ok(())
}

#[test]
fn jump() {
    let mut vm: Machine<HaltHandler> = Machine::new(1024 * 4);
    let program = vec![
        Imm(PC, Literal12Bit::new_checked(10).unwrap()),
        Invalid(0),
        Invalid(0),
        Invalid(0),
        Invalid(0),
        System(Zero, Zero, Nibble::new_checked(SIGHALT).unwrap()),
    ];
    run(&mut vm, &program).unwrap();
    assert_eq!(vm.get_register(PC), 12);
}

#[test]
fn jump_offset() {
    let mut vm: Machine<HaltHandler> = Machine::new(1024 * 4);
    let program = vec![
        Add(Zero, Zero, Zero),
        Add(Zero, Zero, Zero),
        Add(Zero, Zero, Zero),
        JumpOffset(Literal10Bit::new_checked(10).unwrap()),
        Invalid(0),
        Invalid(0),
        Invalid(0),
        Invalid(0),
        System(Zero, Zero, Nibble::new_checked(SIGHALT).unwrap()),
    ];
    run(&mut vm, &program).unwrap();
    assert_eq!(vm.get_register(PC), 18);
}

#[test]
fn branch() {
    let mut vm: Machine<HaltHandler> = Machine::new(1024 * 4);
    let program = vec![
        Imm(A, Literal12Bit::new_checked(12).unwrap()),
        Imm(B, Literal12Bit::new_checked(13).unwrap()),
        Test(A, B, TestOp::Neq),
        AddIf(PC, PC, Nibble::new_checked(0x4).unwrap()),
        Invalid(0),
        Invalid(0),
        Invalid(0),
        System(Zero, Zero, Nibble::new_checked(SIGHALT).unwrap()),
    ];
    run(&mut vm, &program).unwrap();
}

#[test]
fn branch_without_test() {
    let mut vm: Machine<HaltHandler> = Machine::new(1024 * 4);
    let program = vec![
        Imm(A, Literal12Bit::new_checked(12).unwrap()),
        Imm(B, Literal12Bit::new_checked(13).unwrap()),
        Test(A, B, TestOp::Neq),
        AddIf(PC, PC, Nibble::new_checked(0x3).unwrap()),
        Invalid(0),
        Invalid(0),
        AddIf(PC, PC, Nibble::new_checked(0xf).unwrap()),
        System(Zero, Zero, Nibble::new_checked(SIGHALT).unwrap()),
    ];
    run(&mut vm, &program).unwrap();
}

#[test]
fn jump_and_link_set() {
    let mut vm: Machine<HaltHandler> = Machine::new(1024 * 4);
    let program = vec![
        Imm(B, Literal12Bit::new_checked(4).unwrap()),
        SetAndSave(PC, B, C),
        System(Zero, Zero, Nibble::new_checked(SIGHALT).unwrap()),
    ];
    run(&mut vm, &program).unwrap();
    assert_eq!(vm.get_register(C), 2);
}

#[test]
fn jump_and_link_add() {
    let mut vm: Machine<HaltHandler> = Machine::new(1024 * 4);
    let program = vec![
        Imm(A, Literal12Bit::new_checked(8).unwrap()),
        AddAndSave(PC, A, B),
        Invalid(0),
        Invalid(0),
        Invalid(0),
        System(Zero, Zero, Nibble::new_checked(SIGHALT).unwrap()),
    ];
    run(&mut vm, &program).unwrap();
    assert_eq!(vm.get_register(B), 2);
}
