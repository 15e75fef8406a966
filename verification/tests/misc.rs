use flipvm::op::Instruction;
use flipvm::op::Instruction::{Imm, Add, Sub, AddImm, AddImmSigned, ShiftLeft, ShiftRightLogical,
    ShiftRightArithmetic, Load, Store, Test, AddIf, Jump, JumpOffset, SetAndSave, AddAndSave, Stack,
    LoadStackOffset, System, Invalid};
use flipvm::op::{Literal12Bit, Literal7Bit, Nibble, TestOp};
use flipvm::Register::{Zero, A, B, C, M, SP, PC, BP};
use flipvm::{Addressable, HaltHandler, LinearMemory, Machine, Register, VmError, SIGHALT};

fn init_machine(mem_size: usize) -> Machine<HaltHandler> {
    let mut m: Machine<HaltHandler> = Machine::default();
    m.map(0x0, mem_size as u32, LinearMemory::new(mem_size)).unwrap();
    m
}

fn run(m: &mut Machine<HaltHandler>, program: &[Instruction]) -> Result<(), VmError> {
    let mut addr: u32 = 0;
    for ins in program {
        m.vm.memory.write2(addr, ins.encode_u16()).unwrap();
        addr += 2;
    }
    m.set_register(Register::SP, 1024 * 3);
    m.define_handler(SIGHALT, HaltHandler);
    while !m.is_halted() {
        m.step()?;
    }
    Ok(())
}

#[test]
fn loop_control() {
    let mut m = init_machine(1024 * 4);
    let program = vec![
        Imm(A, Literal12Bit::new_checked(5).unwrap()),
        // Start = 2
        Test(A, Zero, TestOp::Neq),
        AddIf(PC, PC, Nibble::new_checked(2).unwrap()),
        Imm(PC, Literal12Bit::new_checked(14).unwrap()),
        AddImmSigned(A, Literal7Bit::from_signed(-1).unwrap()),
        AddImm(B, Literal7Bit::new_checked(1).unwrap()),
        Imm(PC, Literal12Bit::new_checked(2).unwrap()),
        // End = 14
        System(Zero, Zero, Nibble::new_checked(SIGHALT).unwrap()),
    ];
    run(&mut m, &program).unwrap();
    assert_eq!(m.get_register(B), 5);
}
