use flipvm::op::Instruction;
use flipvm::op::Instruction::{Imm, Add, Sub, AddImm, AddImmSigned, ShiftLeft, ShiftRightLogical,
    ShiftRightArithmetic, Load, Store, Test, AddIf, Jump, JumpOffset, SetAndSave, AddAndSave, Stack,
    LoadStackOffset, System, Invalid};
use flipvm::op::{Literal12Bit, Nibble, StackOp, TestOp};
use flipvm::Register::{Zero, A, B, C, M, SP, PC, BP};
use flipvm::{
    Addressable, Flag, HaltHandler, LinearMemory, Machine, MemoryError, Register, VmError, SIGHALT,
};

fn init_machine(mem_size: usize) -> Machine<HaltHandler> {
    let mut m: Machine<HaltHandler> = Machine::default();
    m.map(0x0, mem_size as u32, LinearMemory::new(mem_size)).unwrap();
    m
}

fn run(m: &mut Machine<HaltHandler>, program: &[Instruction]) -> Result<(), VmError> {
    let mut addr: u32 = 0;
    for ins in program {
        m.vm.memory.write2(addr, ins.encode_u16()).unwrap();
        addr += 2;
    }
    m.set_register(Register::SP, 1024 * 3);
    m.define_handler(SIGHALT, HaltHandler);
    while !m.is_halted() {
        m.step()?;
    }
    Ok(())
}

#[test]
fn zero_register_reads_zero() {
    let mut m = init_machine(1024 * 4);
    // A write to Zero is discarded, by the host and by an instruction.
    m.set_register(Zero, 55);
    assert_eq!(m.get_register(Zero), 0);
    let program = vec![
        Imm(Zero, Literal12Bit::new_checked(55).unwrap()),
        Add(A, B, Zero),
        System(Zero, Zero, Nibble::new_checked(SIGHALT).unwrap()),
    ];
    run(&mut m, &program).unwrap();
    assert_eq!(m.get_register(Zero), 0);
}

#[test]
fn add_if_advances_two_per_count() {
    // With Compare set, AddIf(PC, PC, n) moves PC exactly 2 * n bytes.
    for n in 1u8..8 {
        let mut m = init_machine(1024 * 4);
        m.vm.memory
            .write2(0, AddIf(PC, PC, Nibble::new_checked(n).unwrap()).encode_u16())
            .unwrap();
        m.set_flag(Flag::Compare, true);
        m.step().unwrap();
        assert_eq!(m.get_register(PC), 2 * n as u16);
        // The flag is consumed.
        assert!(!m.test_flag(Flag::Compare));
    }
}

#[test]
fn word_endianness() {
    let mut m = init_machine(1024 * 4);
    m.vm.memory.write2(9, 0x1234).unwrap();
    assert_eq!(m.vm.memory.read(9).unwrap(), 0x34);
    assert_eq!(m.vm.memory.read(10).unwrap(), 0x12);
    assert_eq!(m.vm.memory.read2(9).unwrap(), 0x1234);
}

#[test]
fn unmapped_access_faults() {
    let mut m: Machine<HaltHandler> = Machine::default();
    m.map(0x100, 0x100, LinearMemory::new(0x100)).unwrap();
    assert_eq!(
        m.vm.memory.read(0x50),
        Err(MemoryError::UnmappedAddress(0x50))
    );
    assert!(m.vm.memory.read(0x150).is_ok());
    // PC starts at 0, which is unmapped here: the first step faults.
    assert!(matches!(m.step(), Err(VmError::Memory(_))));
}

#[test]
fn overlapping_map_fails() {
    let mut m: Machine<HaltHandler> = Machine::default();
    m.map(0, 0x200, LinearMemory::new(0x200)).unwrap();
    assert!(m.map(0x100, 0x100, LinearMemory::new(0x100)).is_err());
    assert!(m.map(0x200, 0x100, LinearMemory::new(0x100)).is_ok());
}

#[test]
fn unknown_signal_faults() {
    let mut m = init_machine(1024 * 4);
    let program = vec![System(Zero, Zero, Nibble::new_checked(7).unwrap())];
    let mut addr = 0;
    for ins in &program {
        m.vm.memory.write2(addr, ins.encode_u16()).unwrap();
        addr += 2;
    }
    m.define_handler(SIGHALT, HaltHandler);
    assert_eq!(m.step(), Err(VmError::UnknownSignal(7)));
}

#[test]
fn illegal_instruction_faults() {
    let mut m = init_machine(1024 * 4);
    m.vm.memory.write2(0, 0x8000).unwrap();
    assert_eq!(m.step(), Err(VmError::IllegalInstruction(0x8000)));
}

#[test]
fn stack_push_pop() {
    let mut m = init_machine(1024 * 4);
    let program = vec![
        Imm(A, Literal12Bit::new_checked(42).unwrap()),
        Stack(A, SP, StackOp::Push),
        Stack(B, SP, StackOp::Pop),
        System(Zero, Zero, Nibble::new_checked(SIGHALT).unwrap()),
    ];
    run(&mut m, &program).unwrap();
    assert_eq!(m.get_register(B), 42);
    assert_eq!(m.get_register(SP), 1024 * 3);
}

#[test]
fn stack_discipline() {
    let mut m = init_machine(1024 * 4);
    let program = vec![
        Imm(A, Literal12Bit::new_checked(7).unwrap()),
        Imm(B, Literal12Bit::new_checked(3).unwrap()),
        Stack(A, SP, StackOp::Push),
        Stack(B, SP, StackOp::Push),
        // Stack is [7, 3]; swap makes it [3, 7]; sub pushes 3 - 7.
        Stack(Zero, SP, StackOp::Swap),
        Stack(Zero, SP, StackOp::Sub),
        Stack(C, SP, StackOp::Pop),
        System(Zero, Zero, Nibble::new_checked(SIGHALT).unwrap()),
    ];
    run(&mut m, &program).unwrap();
    assert_eq!(m.get_register(C), 3u16.wrapping_sub(7));
}

#[test]
fn stack_dup_peek_rotate_add() {
    let mut m = init_machine(1024 * 4);
    let program = vec![
        Imm(A, Literal12Bit::new_checked(1).unwrap()),
        Imm(B, Literal12Bit::new_checked(2).unwrap()),
        Imm(C, Literal12Bit::new_checked(3).unwrap()),
        Stack(A, SP, StackOp::Push),
        Stack(B, SP, StackOp::Push),
        Stack(C, SP, StackOp::Push),
        // Stack is [1, 2, 3]; rotate puts the top third: [3, 1, 2].
        Stack(Zero, SP, StackOp::Rotate),
        Stack(M, SP, StackOp::Peek),
        // Add pops 2 and 1, pushing 3: [3, 3]; dup makes [3, 3, 3].
        Stack(Zero, SP, StackOp::Add),
        Stack(Zero, SP, StackOp::Dup),
        Stack(A, SP, StackOp::Pop),
        Stack(B, SP, StackOp::Pop),
        Stack(C, SP, StackOp::Pop),
        System(Zero, Zero, Nibble::new_checked(SIGHALT).unwrap()),
    ];
    run(&mut m, &program).unwrap();
    assert_eq!(m.get_register(M), 2);
    assert_eq!(m.get_register(A), 3);
    assert_eq!(m.get_register(B), 3);
    assert_eq!(m.get_register(C), 3);
    assert_eq!(m.get_register(SP), 1024 * 3);
}

#[test]
fn load_and_store() {
    let mut m = init_machine(1024 * 4);
    let program = vec![
        Imm(A, Literal12Bit::new_checked(0xabc).unwrap()),
        Imm(B, Literal12Bit::new_checked(0x500).unwrap()),
        Store(A, B, Zero),
        Load(C, B, Zero),
        System(Zero, Zero, Nibble::new_checked(SIGHALT).unwrap()),
    ];
    run(&mut m, &program).unwrap();
    assert_eq!(m.get_register(C), 0xabc);
    assert_eq!(m.vm.memory.read2(0x500).unwrap(), 0xabc);
}

#[test]
fn load_stack_offset() {
    let mut m = init_machine(1024 * 4);
    let program = vec![
        Imm(A, Literal12Bit::new_checked(99).unwrap()),
        Stack(A, SP, StackOp::Push),
        Stack(Zero, SP, StackOp::Push),
        LoadStackOffset(C, SP, Nibble::new_checked(2).unwrap()),
        System(Zero, Zero, Nibble::new_checked(SIGHALT).unwrap()),
    ];
    run(&mut m, &program).unwrap();
    assert_eq!(m.get_register(C), 99);
}

#[test]
fn reset_clears_registers_but_not_memory() {
    let mut m = init_machine(1024 * 4);
    m.set_register(A, 7);
    m.set_flag(Flag::Compare, true);
    m.vm.memory.write2(0x10, 0x4242).unwrap();
    m.reset();
    assert_eq!(m.get_register(A), 0);
    assert!(!m.test_flag(Flag::Compare));
    assert_eq!(m.vm.memory.read2(0x10).unwrap(), 0x4242);
}

#[test]
fn run_follows_the_program_within_budget() {
    let mut m = init_machine(1024 * 4);
    let program = vec![
        Imm(A, Literal12Bit::new_checked(11).unwrap()),
        Imm(B, Literal12Bit::new_checked(15).unwrap()),
        Add(A, B, C),
        System(Zero, Zero, Nibble::new_checked(SIGHALT).unwrap()),
    ];
    let mut addr: u32 = 0;
    for ins in &program {
        m.vm.memory.write2(addr, ins.encode_u16()).unwrap();
        addr += 2;
    }
    m.define_handler(SIGHALT, HaltHandler);
    assert_eq!(m.run(100), Ok(true));
    assert_eq!(m.get_register(C), 26);
    // A spent budget, short of the halt, reports the machine not halted.
    let mut m2 = init_machine(1024 * 4);
    let mut addr2: u32 = 0;
    for ins in &program {
        m2.vm.memory.write2(addr2, ins.encode_u16()).unwrap();
        addr2 += 2;
    }
    m2.define_handler(SIGHALT, HaltHandler);
    assert_eq!(m2.run(2), Ok(false));
    assert!(!m2.is_halted());
    assert_eq!(m2.run(100), Ok(true));
}
