//! The machine state and its fetch-decode-execute engine.
//!
//! A step reads the 16-bit word at `PC`, decodes it, clears the
//! `HasJumped` flag, executes, and then either clears `HasJumped` again
//! (when the instruction wrote `PC` itself) or advances `PC` by 2. Every
//! instruction that writes `PC` sets `HasJumped`, so a jump target is
//! executed exactly as addressed.
//!
//! The meaning of every instruction but `System` is the pure function
//! [`MachineView::step_effect`] over the machine's mathematical state;
//! `System` dispatches to a host-registered [`SignalHandler`], of which
//! nothing is assumed beyond preservation of the memory map's
//! consistency.

use vstd::prelude::*;

use crate::memory::Addressable;
use crate::memory::LinearMemory;
use crate::memory::MemoryError;
use crate::memory::MemoryMapper;
use crate::memory::word_le;
use crate::op::EncodingError;
use crate::op::Instruction;
use crate::op::StackOp;
use crate::op::TestOp;
use crate::op::lemma_decode_wf;
use crate::register::Flag;
use crate::register::Register;

verus! {

/// The signal number every test program halts with.
pub const SIGHALT: u8 = 0x01;

/// A fault raised while the machine runs; it ends the run and leaves
/// the machine in its last consistent state.
#[derive(Clone, Copy, Debug, PartialEq, Eq, Structural)]
pub enum VmError {
    /// A memory access failed.
    Memory(MemoryError),
    /// The fetched word does not decode.
    Encoding(EncodingError),
    /// An `Invalid` instruction was executed.
    IllegalInstruction(u16),
    /// A `System` instruction named a signal with no handler.
    UnknownSignal(u8),
    /// A signal handler failed, with a code of its choosing.
    Signal(u16),
}

/// The mathematical state of a machine: seven register values (the
/// eighth register, `Zero`, holds no state), the flag word, the halt
/// flag, and memory as a map from mapped byte address to byte.
#[verifier::ext_equal]
pub struct MachineView {
    pub a: u16,
    pub b: u16,
    pub c: u16,
    pub m: u16,
    pub sp: u16,
    pub pc: u16,
    pub bp: u16,
    pub flags: u16,
    pub halt: bool,
    pub mem: Map<int, u8>,
}

/// Addition truncated to 16 bits; `v` may lie one range above or below.
pub open spec fn wrap16(v: int) -> u16 {
    if v >= 0x10000 {
        (v - 0x10000) as u16
    } else if v < 0 {
        (v + 0x10000) as u16
    } else {
        v as u16
    }
}

/// Arithmetic (sign-preserving) right shift of a 16-bit word.
pub open spec fn sra16(v: u16, n: u16) -> u16 {
    if n == 0 {
        v
    } else if n < 16 {
        if v & 0x8000 == 0 {
            v >> n
        } else {
            (v >> n) | (0xffffu16 << ((16 - n) as u16))
        }
    } else {
        if v & 0x8000 == 0 {
            0
        } else {
            0xffff
        }
    }
}

/// The predicate a `Test` instruction evaluates; comparisons are
/// unsigned.
pub open spec fn test_eval(t: TestOp, a: u16, b: u16) -> bool {
    match t {
        TestOp::Eq => a == b,
        TestOp::Neq => a != b,
        TestOp::Lt => a < b,
        TestOp::Lte => a <= b,
        TestOp::Gt => a > b,
        TestOp::Gte => a >= b,
        TestOp::BothZero => a == 0 && b == 0,
        TestOp::EitherNonZero => a != 0 || b != 0,
        TestOp::BothNonZero => a != 0 && b != 0,
    }
}

impl MachineView {
    /// The value a register reads as: `Zero` reads as 0.
    pub open spec fn reg(self, r: Register) -> u16 {
        match r {
            Register::Zero => 0,
            Register::A => self.a,
            Register::B => self.b,
            Register::C => self.c,
            Register::M => self.m,
            Register::SP => self.sp,
            Register::PC => self.pc,
            Register::BP => self.bp,
        }
    }

    /// A plain register write, as the host performs it: a write to
    /// `Zero` is discarded, and no flag changes.
    pub open spec fn with_reg(self, r: Register, v: u16) -> MachineView {
        match r {
            Register::Zero => self,
            Register::A => MachineView { a: v, ..self },
            Register::B => MachineView { b: v, ..self },
            Register::C => MachineView { c: v, ..self },
            Register::M => MachineView { m: v, ..self },
            Register::SP => MachineView { sp: v, ..self },
            Register::PC => MachineView { pc: v, ..self },
            Register::BP => MachineView { bp: v, ..self },
        }
    }

    /// A register write performed by an instruction: as `with_reg`, and
    /// a write to `PC` also raises `HasJumped`.
    pub open spec fn write_reg(self, r: Register, v: u16) -> MachineView {
        if r is PC {
            MachineView { pc: v, flags: self.flags | 0x2, ..self }
        } else {
            self.with_reg(r, v)
        }
    }

    /// Whether a flag is raised.
    pub open spec fn flag_set(self, f: Flag) -> bool {
        self.flags & f.spec_mask() != 0
    }

    /// The flag word with `Compare` latched to `v`.
    pub open spec fn with_compare(self, v: bool) -> MachineView {
        if v {
            MachineView { flags: self.flags | 0x1, ..self }
        } else {
            MachineView { flags: self.flags & 0xfffe, ..self }
        }
    }

    /// The state with `HasJumped` lowered.
    pub open spec fn clear_jumped(self) -> MachineView {
        MachineView { flags: self.flags & 0xfffd, ..self }
    }

    /// Both bytes of the word at `addr` are mapped.
    pub open spec fn mem_ok2(self, addr: int) -> bool {
        self.mem.contains_key(addr) && self.mem.contains_key(addr + 1)
    }

    /// The little-endian word whose low byte sits at `addr`.
    pub open spec fn word_at(self, addr: int) -> u16 {
        word_le(self.mem[addr], self.mem[addr + 1])
    }

    /// The state with the little-endian word at `addr` replaced.
    pub open spec fn with_word(self, addr: int, v: u16) -> MachineView {
        MachineView {
            mem: self.mem.insert(addr, (v & 0xff) as u8).insert(addr + 1, (v >> 8) as u8),
            ..self
        }
    }

    /// What executing one instruction does to the state, before the
    /// program counter moves on: `None` is a fault (an unmapped memory
    /// access, or an `Invalid` trap), and the state is unchanged.
    /// `System` is not a pure state change and is never passed here.
    pub open spec fn exec_effect(self, ins: Instruction) -> Option<MachineView> {
        match ins {
            Instruction::Imm(r, l12) => Some(self.write_reg(r, l12.value)),
            Instruction::Add(a, b, d) => Some(
                self.write_reg(d, wrap16(self.reg(a) + self.reg(b))),
            ),
            Instruction::Sub(a, b, d) => Some(
                self.write_reg(d, wrap16(self.reg(a) - self.reg(b))),
            ),
            Instruction::AddImm(d, l7) => Some(
                self.write_reg(d, wrap16(self.reg(d) + l7.value)),
            ),
            Instruction::AddImmSigned(d, l7) => Some(
                self.write_reg(d, wrap16(self.reg(d) + l7.spec_signed())),
            ),
            Instruction::ShiftLeft(s, d, n) => Some(
                self.write_reg(d, self.reg(s) << (n.value as u16)),
            ),
            Instruction::ShiftRightLogical(s, d, n) => Some(
                self.write_reg(d, self.reg(s) >> (n.value as u16)),
            ),
            Instruction::ShiftRightArithmetic(s, d, n) => Some(
                self.write_reg(d, sra16(self.reg(s), n.value as u16)),
            ),
            Instruction::Load(d, lo, hi) => {
                let addr = self.reg(lo) + self.reg(hi) * 0x10000;
                if self.mem_ok2(addr) {
                    Some(self.write_reg(d, self.word_at(addr)))
                } else {
                    None
                }
            },
            Instruction::Store(src, lo, hi) => {
                let addr = self.reg(lo) + self.reg(hi) * 0x10000;
                if self.mem_ok2(addr) {
                    Some(self.with_word(addr, self.reg(src)))
                } else {
                    None
                }
            },
            Instruction::Test(a, b, t) => Some(
                self.with_compare(test_eval(t, self.reg(a), self.reg(b))),
            ),
            Instruction::AddIf(d, s, n) => {
                if self.flag_set(Flag::Compare) {
                    Some(
                        self.write_reg(d, wrap16(self.reg(s) + 2 * n.value)).with_compare(false),
                    )
                } else {
                    Some(self)
                }
            },
            Instruction::Jump(l10) => Some(self.write_reg(Register::PC, l10.value << 1)),
            Instruction::JumpOffset(l10) => Some(
                self.write_reg(Register::PC, wrap16(self.pc + l10.value)),
            ),
            Instruction::SetAndSave(d, src, link) => {
                let saved = self.write_reg(link, self.pc);
                Some(saved.write_reg(d, saved.reg(src)))
            },
            Instruction::AddAndSave(d, src, link) => {
                let saved = self.write_reg(link, self.pc);
                Some(saved.write_reg(d, wrap16(saved.reg(d) + saved.reg(src))))
            },
            Instruction::Stack(r, sp, op) => self.stack_effect(r, sp, op),
            Instruction::LoadStackOffset(d, base, n) => {
                let addr = wrap16(self.reg(base) - 2 * n.value);
                if self.mem_ok2(addr as int) {
                    Some(self.write_reg(d, self.word_at(addr as int)))
                } else {
                    None
                }
            },
            Instruction::System(_, _, _) => None,
            Instruction::Invalid(_) => None,
        }
    }

    /// What a stack instruction does. All words live below the pointer
    /// register `sp`; addresses wrap at 16 bits.
    pub open spec fn stack_effect(self, r: Register, sp: Register, op: StackOp) -> Option<
        MachineView,
    > {
        let sp_v = self.reg(sp);
        match op {
            StackOp::Push => {
                if self.mem_ok2(sp_v as int) {
                    Some(self.with_word(sp_v as int, self.reg(r)).write_reg(sp, wrap16(sp_v + 2)))
                } else {
                    None
                }
            },
            StackOp::Pop => {
                let addr = wrap16(sp_v - 2);
                if self.mem_ok2(addr as int) {
                    Some(
                        self.write_reg(sp, addr).write_reg(r, self.word_at(addr as int)),
                    )
                } else {
                    None
                }
            },
            StackOp::Peek => {
                let addr = wrap16(sp_v - 2);
                if self.mem_ok2(addr as int) {
                    Some(self.write_reg(r, self.word_at(addr as int)))
                } else {
                    None
                }
            },
            StackOp::Swap => {
                let top = wrap16(sp_v - 2);
                let snd = wrap16(sp_v - 4);
                if self.mem_ok2(top as int) && self.mem_ok2(snd as int) {
                    Some(
                        self.with_word(top as int, self.word_at(snd as int)).with_word(
                            snd as int,
                            self.word_at(top as int),
                        ),
                    )
                } else {
                    None
                }
            },
            StackOp::Dup => {
                let top = wrap16(sp_v - 2);
                if self.mem_ok2(top as int) && self.mem_ok2(sp_v as int) {
                    Some(
                        self.with_word(sp_v as int, self.word_at(top as int)).write_reg(
                            sp,
                            wrap16(sp_v + 2),
                        ),
                    )
                } else {
                    None
                }
            },
            StackOp::Rotate => {
                let top = wrap16(sp_v - 2);
                let snd = wrap16(sp_v - 4);
                let trd = wrap16(sp_v - 6);
                if self.mem_ok2(top as int) && self.mem_ok2(snd as int) && self.mem_ok2(
                    trd as int,
                ) {
                    Some(
                        self.with_word(top as int, self.word_at(snd as int)).with_word(
                            snd as int,
                            self.word_at(trd as int),
                        ).with_word(trd as int, self.word_at(top as int)),
                    )
                } else {
                    None
                }
            },
            StackOp::Add => {
                let top = wrap16(sp_v - 2);
                let snd = wrap16(sp_v - 4);
                if self.mem_ok2(top as int) && self.mem_ok2(snd as int) {
                    Some(
                        self.with_word(
                            snd as int,
                            wrap16(self.word_at(top as int) + self.word_at(snd as int)),
                        ).write_reg(sp, top),
                    )
                } else {
                    None
                }
            },
            StackOp::Sub => {
                let top = wrap16(sp_v - 2);
                let snd = wrap16(sp_v - 4);
                if self.mem_ok2(top as int) && self.mem_ok2(snd as int) {
                    Some(
                        self.with_word(
                            snd as int,
                            wrap16(self.word_at(snd as int) - self.word_at(top as int)),
                        ).write_reg(sp, top),
                    )
                } else {
                    None
                }
            },
        }
    }

    /// The program counter's move after an instruction: an instruction
    /// that wrote `PC` has its target honoured (the flag is lowered),
    /// any other is followed by the next word.
    pub open spec fn advance(self) -> MachineView {
        if self.flag_set(Flag::HasJumped) {
            self.clear_jumped()
        } else {
            MachineView { pc: wrap16(self.pc + 2), ..self }
        }
    }

    /// One whole step of a non-`System` instruction: `HasJumped` is
    /// lowered, the instruction executes, and the program counter moves
    /// on.
    pub open spec fn step_effect(self, ins: Instruction) -> Option<MachineView> {
        match self.clear_jumped().exec_effect(ins) {
            Some(post) => Some(post.advance()),
            None => None,
        }
    }
}

/// What one pure step of the machine does, seen from a state: the
/// next state where the instruction's whole meaning is a state change,
/// `Signal` where a `System` instruction hands over to a host handler,
/// and `Fault` where the fetch, the decoding or the execution fails.
pub enum StepView {
    Next(MachineView),
    Signal,
    Fault,
}

impl MachineView {
    /// One pure step from this state: fetch, decode, and the whole
    /// step's effect for every instruction but `System`.
    pub open spec fn spec_step(self) -> StepView {
        if !self.mem_ok2(self.pc as int) {
            StepView::Fault
        } else {
            match Instruction::spec_decode(self.word_at(self.pc as int)) {
                Err(_) => StepView::Fault,
                Ok(ins) => if ins is System {
                    StepView::Signal
                } else {
                    match self.step_effect(ins) {
                        Some(p) => StepView::Next(p),
                        None => StepView::Fault,
                    }
                },
            }
        }
    }

    /// Iterate pure steps from this state: the state reached when the
    /// machine halts, the pure semantics stops deciding (a fault or a
    /// `System` instruction), or the fuel runs out — paired with the
    /// fuel left at that point.
    pub open spec fn spec_run(self, fuel: nat) -> (MachineView, nat)
        decreases fuel,
    {
        if fuel == 0 {
            (self, 0)
        } else if self.halt {
            (self, fuel)
        } else {
            match self.spec_step() {
                StepView::Next(p) => p.spec_run((fuel - 1) as nat),
                _ => (self, fuel),
            }
        }
    }
}

/// The machine minus its handler table: registers, flags, halt flag
/// and mapped memory. Signal handlers receive it mutably.
#[derive(Debug)]
pub struct VM {
    pub a: u16,
    pub b: u16,
    pub c: u16,
    pub m: u16,
    pub sp: u16,
    pub pc: u16,
    pub bp: u16,
    pub flags: u16,
    pub halt: bool,
    pub memory: MemoryMapper,
}

impl View for VM {
    type V = MachineView;

    open spec fn view(&self) -> MachineView {
        MachineView {
            a: self.a,
            b: self.b,
            c: self.c,
            m: self.m,
            sp: self.sp,
            pc: self.pc,
            bp: self.bp,
            flags: self.flags,
            halt: self.halt,
            mem: Map::new(|addr: int| self.memory.addr_ok(addr), |addr: int| self.memory.byte_at(addr)),
        }
    }
}

impl VM {
    /// The memory map is internally consistent.
    pub open spec fn inv(&self) -> bool {
        self.memory.inv()
    }

    /// A machine state with no memory, every register zero, no flags
    /// and the halt flag lowered.
    pub fn new() -> (r: VM)
        ensures
            r.inv(),
            r@.a == 0 && r@.b == 0 && r@.c == 0 && r@.m == 0,
            r@.sp == 0 && r@.pc == 0 && r@.bp == 0,
            r@.flags == 0 && !r@.halt,
            forall|addr: int| !r@.mem.contains_key(addr),
            r.memory.segments@.len() == 0,
    {
        VM {
            a: 0,
            b: 0,
            c: 0,
            m: 0,
            sp: 0,
            pc: 0,
            bp: 0,
            flags: 0,
            halt: false,
            memory: MemoryMapper::new(),
        }
    }

    /// Read a register; `Zero` reads as 0.
    pub fn get_register(&self, r: Register) -> (v: u16)
        ensures
            v == self@.reg(r),
    {
        match r {
            Register::Zero => 0,
            Register::A => self.a,
            Register::B => self.b,
            Register::C => self.c,
            Register::M => self.m,
            Register::SP => self.sp,
            Register::PC => self.pc,
            Register::BP => self.bp,
        }
    }

    /// Write a register as the host: a write to `Zero` is discarded and
    /// no flag changes.
    pub fn set_register(&mut self, r: Register, v: u16)
        ensures
            final(self)@ == old(self)@.with_reg(r, v),
            final(self).inv() == old(self).inv(),
            final(self).memory == old(self).memory,
    {
        match r {
            Register::Zero => (),
            Register::A => self.a = v,
            Register::B => self.b = v,
            Register::C => self.c = v,
            Register::M => self.m = v,
            Register::SP => self.sp = v,
            Register::PC => self.pc = v,
            Register::BP => self.bp = v,
        }
    }

    /// Write a register as an instruction: a write to `PC` also raises
    /// `HasJumped`.
    fn set_register_traced(&mut self, r: Register, v: u16)
        ensures
            final(self)@ == old(self)@.write_reg(r, v),
            final(self).inv() == old(self).inv(),
            final(self).memory == old(self).memory,
    {
        match r {
            Register::Zero => (),
            Register::A => self.a = v,
            Register::B => self.b = v,
            Register::C => self.c = v,
            Register::M => self.m = v,
            Register::SP => self.sp = v,
            Register::PC => {
                self.pc = v;
                self.flags = self.flags | 0x2;
            },
            Register::BP => self.bp = v,
        }
    }

    /// Whether a flag is raised.
    pub fn test_flag(&self, f: Flag) -> (r: bool)
        ensures
            r == self@.flag_set(f),
    {
        self.flags & f.mask() != 0
    }

    /// Raise or lower one flag.
    pub fn set_flag(&mut self, f: Flag, value: bool)
        ensures
            final(self)@ == (MachineView {
                flags: if value {
                    old(self)@.flags | f.spec_mask()
                } else {
                    old(self)@.flags & !f.spec_mask()
                },
                ..old(self)@
            }),
            final(self).inv() == old(self).inv(),
    {
        if value {
            self.flags = self.flags | f.mask();
        } else {
            self.flags = self.flags & !f.mask();
        }
    }

    /// Read the little-endian word at a 32-bit byte address.
    fn read_word(&self, addr: u32) -> (r: Result<u16, VmError>)
        requires
            self.inv(),
            addr < 0xffff_ffff,
        ensures
            r is Ok <==> self@.mem_ok2(addr as int),
            r matches Ok(w) ==> w == self@.word_at(addr as int),
            r is Err ==> r matches Err(VmError::Memory(_)),
    {
        match self.memory.read2(addr) {
            Ok(w) => Ok(w),
            Err(e) => Err(VmError::Memory(e)),
        }
    }

    /// Write the little-endian word at a 32-bit byte address; on a
    /// fault nothing changes.
    fn write_word(&mut self, addr: u32, v: u16) -> (r: Result<(), VmError>)
        requires
            old(self).inv(),
            addr < 0xffff_ffff,
        ensures
            final(self).inv(),
            r is Ok <==> old(self)@.mem_ok2(addr as int),
            r is Ok ==> final(self)@ == old(self)@.with_word(addr as int, v),
            r is Err ==> *final(self) == *old(self),
            r is Err ==> r matches Err(VmError::Memory(_)),
    {
        let ghost pre = *self;
        match self.memory.write2(addr, v) {
            Ok(()) => {
                proof {
                    assert(self@.mem =~= pre@.with_word(addr as int, v).mem);
                    assert(self@ =~= pre@.with_word(addr as int, v));
                }
                Ok(())
            },
            Err(e) => Err(VmError::Memory(e)),
        }
    }
}


/// Truncated 16-bit addition.
fn add16(a: u16, b: u16) -> (r: u16)
    ensures
        r == wrap16(a + b),
{
    a.wrapping_add(b)
}

/// Truncated 16-bit subtraction.
fn sub16(a: u16, b: u16) -> (r: u16)
    ensures
        r == wrap16(a - b),
{
    a.wrapping_sub(b)
}

/// The 32-bit byte address `lo | (hi << 16)`.
fn wide_addr(lo: u16, hi: u16) -> (r: u32)
    ensures
        r as int == lo + hi * 0x10000,
{
    let r = (lo as u32) | ((hi as u32) << 16);
    proof {
        let l = lo as u32;
        let h = hi as u32;
        assert(l < 0x10000 && h < 0x10000 ==> (l | (h << 16)) == l + h * 0x10000) by (bit_vector);
    }
    r
}

/// Evaluate a test predicate.
fn test_exec(t: TestOp, a: u16, b: u16) -> (r: bool)
    ensures
        r == test_eval(t, a, b),
{
    match t {
        TestOp::Eq => a == b,
        TestOp::Neq => a != b,
        TestOp::Lt => a < b,
        TestOp::Lte => a <= b,
        TestOp::Gt => a > b,
        TestOp::Gte => a >= b,
        TestOp::BothZero => a == 0 && b == 0,
        TestOp::EitherNonZero => a != 0 || b != 0,
        TestOp::BothNonZero => a != 0 && b != 0,
    }
}

impl VM {
    /// Latch the `Compare` flag to `v`.
    fn latch_compare(&mut self, v: bool)
        ensures
            final(self)@ == old(self)@.with_compare(v),
            final(self).inv() == old(self).inv(),
    {
        if v {
            self.flags = self.flags | 0x1;
        } else {
            self.flags = self.flags & 0xfffe;
        }
    }

    /// Move the program counter on after an instruction, honouring
    /// `HasJumped`.
    fn advance_pc(&mut self)
        ensures
            final(self)@ == old(self)@.advance(),
            final(self).inv() == old(self).inv(),
    {
        if self.test_flag(Flag::HasJumped) {
            self.flags = self.flags & 0xfffd;
        } else {
            self.pc = self.pc.wrapping_add(2);
        }
    }

    /// Addresses at or above the top of the 32-bit address space are
    /// never mapped.
    proof fn lemma_top_unmapped(&self)
        requires
            self.inv(),
        ensures
            forall|a: int| a >= 0x1_0000_0000 ==> !self@.mem.contains_key(a),
    {
        assert forall|a: int| a >= 0x1_0000_0000 implies !self@.mem.contains_key(a) by {
            if self.memory.addr_ok(a) {
                let i = choose|i: int|
                    0 <= i < self.memory.segments@.len() && self.memory.segments@[i].contains(a);
                assert(self.memory.segments@[i].wf());
            }
        }
    }

    /// Execute one decoded instruction (any but `System`): a pure state
    /// change given by `exec_effect`, or a fault that changes nothing.
    #[verifier::rlimit(100)]
    #[verifier::spinoff_prover]
    pub fn execute(&mut self, ins: Instruction) -> (r: Result<(), VmError>)
        requires
            old(self).inv(),
            ins.wf(),
            !(ins is System),
        ensures
            final(self).inv(),
            match old(self)@.exec_effect(ins) {
                Some(post) => r is Ok && final(self)@ == post,
                None => r is Err && *final(self) == *old(self),
            },
    {
        match ins {
            Instruction::Imm(r0, l12) => {
                self.set_register_traced(r0, l12.value);
                Ok(())
            },
            Instruction::Add(a0, b0, d) => {
                let v = add16(self.get_register(a0), self.get_register(b0));
                self.set_register_traced(d, v);
                Ok(())
            },
            Instruction::Sub(a0, b0, d) => {
                let v = sub16(self.get_register(a0), self.get_register(b0));
                self.set_register_traced(d, v);
                Ok(())
            },
            Instruction::AddImm(d, l7) => {
                let v = add16(self.get_register(d), l7.value as u16);
                self.set_register_traced(d, v);
                Ok(())
            },
            Instruction::AddImmSigned(d, l7) => {
                let mag = (l7.value & 0x3f) as u16;
                proof {
                    let lv = l7.value;
                    assert((lv & 0x3f) < 0x40) by (bit_vector);
                }
                let v = if l7.value & 0x40 == 0x40 {
                    sub16(self.get_register(d), mag)
                } else {
                    add16(self.get_register(d), mag)
                };
                self.set_register_traced(d, v);
                Ok(())
            },
            Instruction::ShiftLeft(s0, d, n) => {
                let v = self.get_register(s0) << (n.value as u16);
                self.set_register_traced(d, v);
                Ok(())
            },
            Instruction::ShiftRightLogical(s0, d, n) => {
                let v = self.get_register(s0) >> (n.value as u16);
                self.set_register_traced(d, v);
                Ok(())
            },
            Instruction::ShiftRightArithmetic(s0, d, n) => {
                let sv = self.get_register(s0);
                let nv = n.value as u16;
                let v = if nv == 0 {
                    sv
                } else if sv & 0x8000 == 0 {
                    sv >> nv
                } else {
                    (sv >> nv) | (0xffffu16 << (16 - nv))
                };
                self.set_register_traced(d, v);
                Ok(())
            },
            Instruction::Load(d, lo, hi) => {
                let addr = wide_addr(self.get_register(lo), self.get_register(hi));
                if addr == 0xffff_ffffu32 {
                    proof {
                        self.lemma_top_unmapped();
                    }
                    Err(VmError::Memory(MemoryError::UnmappedAddress(addr)))
                } else {
                    match self.read_word(addr) {
                        Ok(w) => {
                            self.set_register_traced(d, w);
                            Ok(())
                        },
                        Err(e) => Err(e),
                    }
                }
            },
            Instruction::Store(src, lo, hi) => {
                let addr = wide_addr(self.get_register(lo), self.get_register(hi));
                if addr == 0xffff_ffffu32 {
                    proof {
                        self.lemma_top_unmapped();
                    }
                    Err(VmError::Memory(MemoryError::UnmappedAddress(addr)))
                } else {
                    let v = self.get_register(src);
                    match self.write_word(addr, v) {
                        Ok(()) => Ok(()),
                        Err(e) => Err(e),
                    }
                }
            },
            Instruction::Test(a0, b0, t) => {
                let v = test_exec(t, self.get_register(a0), self.get_register(b0));
                self.latch_compare(v);
                Ok(())
            },
            Instruction::AddIf(d, s0, n) => {
                if self.test_flag(Flag::Compare) {
                    let v = add16(self.get_register(s0), (n.value as u16) * 2);
                    self.set_register_traced(d, v);
                    self.latch_compare(false);
                }
                Ok(())
            },
            Instruction::Jump(l10) => {
                self.set_register_traced(Register::PC, l10.value << 1);
                Ok(())
            },
            Instruction::JumpOffset(l10) => {
                let v = add16(self.get_register(Register::PC), l10.value);
                self.set_register_traced(Register::PC, v);
                Ok(())
            },
            Instruction::SetAndSave(d, src, link) => {
                let pcv = self.get_register(Register::PC);
                self.set_register_traced(link, pcv);
                let sv = self.get_register(src);
                self.set_register_traced(d, sv);
                Ok(())
            },
            Instruction::AddAndSave(d, src, link) => {
                let pcv = self.get_register(Register::PC);
                self.set_register_traced(link, pcv);
                let v = add16(self.get_register(d), self.get_register(src));
                self.set_register_traced(d, v);
                Ok(())
            },
            Instruction::Stack(r0, sp, op) => self.exec_stack(r0, sp, op),
            Instruction::LoadStackOffset(d, base, n) => {
                let addr = self.get_register(base).wrapping_sub((n.value as u16) * 2);
                match self.read_word(addr as u32) {
                    Ok(w) => {
                        self.set_register_traced(d, w);
                        Ok(())
                    },
                    Err(e) => Err(e),
                }
            },
            Instruction::System(_, _, _) => {
                proof {
                    assert(false);
                }
                Err(VmError::UnknownSignal(0))
            },
            Instruction::Invalid(w) => Err(VmError::IllegalInstruction(w)),
        }
    }

    /// Execute one stack instruction.
    fn exec_stack(&mut self, r0: Register, sp: Register, op: StackOp) -> (res: Result<
        (),
        VmError,
    >)
        requires
            old(self).inv(),
        ensures
            final(self).inv(),
            match old(self)@.stack_effect(r0, sp, op) {
                Some(post) => res is Ok && final(self)@ == post,
                None => res is Err && *final(self) == *old(self),
            },
    {
        let sp_v = self.get_register(sp);
        match op {
            StackOp::Push => {
                let v = self.get_register(r0);
                match self.write_word(sp_v as u32, v) {
                    Ok(()) => {
                        self.set_register_traced(sp, sp_v.wrapping_add(2));
                        Ok(())
                    },
                    Err(e) => Err(e),
                }
            },
            StackOp::Pop => {
                let addr = sp_v.wrapping_sub(2);
                match self.read_word(addr as u32) {
                    Ok(w) => {
                        self.set_register_traced(sp, addr);
                        self.set_register_traced(r0, w);
                        Ok(())
                    },
                    Err(e) => Err(e),
                }
            },
            StackOp::Peek => {
                let addr = sp_v.wrapping_sub(2);
                match self.read_word(addr as u32) {
                    Ok(w) => {
                        self.set_register_traced(r0, w);
                        Ok(())
                    },
                    Err(e) => Err(e),
                }
            },
            StackOp::Swap => {
                let top = sp_v.wrapping_sub(2);
                let snd = sp_v.wrapping_sub(4);
                let w_top = match self.read_word(top as u32) {
                    Ok(w) => w,
                    Err(e) => { return Err(e) },
                };
                let w_snd = match self.read_word(snd as u32) {
                    Ok(w) => w,
                    Err(e) => { return Err(e) },
                };
                match self.write_word(top as u32, w_snd) {
                    Ok(()) => (),
                    Err(e) => { return Err(e) },
                };
                match self.write_word(snd as u32, w_top) {
                    Ok(()) => (),
                    Err(e) => { return Err(e) },
                };
                Ok(())
            },
            StackOp::Dup => {
                let top = sp_v.wrapping_sub(2);
                let w_top = match self.read_word(top as u32) {
                    Ok(w) => w,
                    Err(e) => { return Err(e) },
                };
                match self.write_word(sp_v as u32, w_top) {
                    Ok(()) => (),
                    Err(e) => { return Err(e) },
                };
                self.set_register_traced(sp, sp_v.wrapping_add(2));
                Ok(())
            },
            StackOp::Rotate => {
                let top = sp_v.wrapping_sub(2);
                let snd = sp_v.wrapping_sub(4);
                let trd = sp_v.wrapping_sub(6);
                let w_top = match self.read_word(top as u32) {
                    Ok(w) => w,
                    Err(e) => { return Err(e) },
                };
                let w_snd = match self.read_word(snd as u32) {
                    Ok(w) => w,
                    Err(e) => { return Err(e) },
                };
                let w_trd = match self.read_word(trd as u32) {
                    Ok(w) => w,
                    Err(e) => { return Err(e) },
                };
                match self.write_word(top as u32, w_snd) {
                    Ok(()) => (),
                    Err(e) => { return Err(e) },
                };
                match self.write_word(snd as u32, w_trd) {
                    Ok(()) => (),
                    Err(e) => { return Err(e) },
                };
                match self.write_word(trd as u32, w_top) {
                    Ok(()) => (),
                    Err(e) => { return Err(e) },
                };
                Ok(())
            },
            StackOp::Add => {
                let top = sp_v.wrapping_sub(2);
                let snd = sp_v.wrapping_sub(4);
                let w_top = match self.read_word(top as u32) {
                    Ok(w) => w,
                    Err(e) => { return Err(e) },
                };
                let w_snd = match self.read_word(snd as u32) {
                    Ok(w) => w,
                    Err(e) => { return Err(e) },
                };
                match self.write_word(snd as u32, add16(w_top, w_snd)) {
                    Ok(()) => (),
                    Err(e) => { return Err(e) },
                };
                self.set_register_traced(sp, top);
                Ok(())
            },
            StackOp::Sub => {
                let top = sp_v.wrapping_sub(2);
                let snd = sp_v.wrapping_sub(4);
                let w_top = match self.read_word(top as u32) {
                    Ok(w) => w,
                    Err(e) => { return Err(e) },
                };
                let w_snd = match self.read_word(snd as u32) {
                    Ok(w) => w,
                    Err(e) => { return Err(e) },
                };
                match self.write_word(snd as u32, sub16(w_snd, w_top)) {
                    Ok(()) => (),
                    Err(e) => { return Err(e) },
                };
                self.set_register_traced(sp, top);
                Ok(())
            },
        }
    }
}

/// A host-supplied handler for one `System` signal.
///
/// The handler may change any machine state, including raising `halt`
/// or returning an error that ends the run; it must leave the memory
/// map internally consistent. Nothing else is assumed of it.
pub trait SignalHandler: Sized {
    /// Handle a signal, given the machine and the value of the
    /// instruction's first register operand.
    fn handle(&self, vm: &mut VM, arg: u16) -> (r: Result<(), VmError>)
        requires
            old(vm).inv(),
        ensures
            final(vm).inv(),
    ;
}

/// The halt convention used throughout: the handler for `SIGHALT`
/// raises the halt flag and succeeds.
#[derive(Clone, Copy, Debug)]
pub struct HaltHandler;

impl SignalHandler for HaltHandler {
    fn handle(&self, vm: &mut VM, _arg: u16) -> (r: Result<(), VmError>)
        ensures
            final(vm)@ == (MachineView { halt: true, ..old(vm)@ }),
            r is Ok,
    {
        vm.halt = true;
        Ok(())
    }
}

/// A machine: registers, flags, memory and halt flag in [`VM`], plus a
/// table of sixteen signal handler slots keyed by the 4-bit signal
/// number of a `System` instruction.
#[derive(Debug)]
pub struct Machine<H: SignalHandler> {
    pub vm: VM,
    pub handlers: Vec<Option<H>>,
}

impl<H: SignalHandler> Machine<H> {
    /// The memory map is consistent and the handler table has its
    /// sixteen slots.
    pub open spec fn inv(&self) -> bool {
        self.vm.inv() && self.handlers@.len() == 16
    }

    /// Sixteen empty handler slots.
    fn empty_handlers() -> (r: Vec<Option<H>>)
        ensures
            r@.len() == 16,
            forall|i: int| 0 <= i < 16 ==> r@[i] is None,
    {
        let mut v: Vec<Option<H>> = Vec::new();
        let mut i: usize = 0;
        while i < 16
            invariant
                i <= 16,
                v@.len() == i,
                forall|j: int| 0 <= j < i ==> v@[j] is None,
            decreases 16 - i,
        {
            v.push(None);
            i = i + 1;
        }
        v
    }

    /// A machine with one zero-filled `LinearMemory` of `mem_size`
    /// bytes mapped at address 0, every register and flag zero, and no
    /// handlers.
    pub fn new(mem_size: usize) -> (r: Machine<H>)
        requires
            mem_size <= 0xffff_ffff,
        ensures
            r.inv(),
            r.vm@.a == 0 && r.vm@.b == 0 && r.vm@.c == 0 && r.vm@.m == 0,
            r.vm@.sp == 0 && r.vm@.pc == 0 && r.vm@.bp == 0,
            r.vm@.flags == 0 && !r.vm@.halt,
            forall|a: int| #[trigger] r.vm@.mem.contains_key(a) <==> 0 <= a < mem_size,
            forall|a: int| 0 <= a < mem_size ==> #[trigger] r.vm@.mem[a] == 0,
            forall|i: int| 0 <= i < 16 ==> r.handlers@[i] is None,
    {
        let mut vm = VM::new();
        let device = LinearMemory::new(mem_size);
        let mapped = vm.memory.map(0, mem_size as u32, device);
        proof {
            assert(mapped is Ok);
            assert forall|a: int| #[trigger] vm@.mem.contains_key(a) <==> 0 <= a < mem_size by {
            }
            assert forall|a: int| 0 <= a < mem_size implies #[trigger] vm@.mem[a] == 0 by {
            }
        }
        Machine { vm, handlers: Self::empty_handlers() }
    }

    /// Map `size` bytes of `device` at `start`; see
    /// [`MemoryMapper::map`] for the success condition and effect.
    pub fn map(&mut self, start: u32, size: u32, device: LinearMemory) -> (r: Result<(), VmError>)
        requires
            old(self).inv(),
        ensures
            final(self).inv(),
            final(self).handlers@ == old(self).handlers@,
            r is Ok <==> (start as int + size as int <= 0x1_0000_0000 && device.bytes@.len()
                == size && old(self).vm.memory.fits(start, size)),
            r is Err ==> final(self).vm == old(self).vm,
            r is Ok ==> forall|a: int|
                #[trigger] final(self).vm@.mem.contains_key(a) == (old(self).vm@.mem.contains_key(a)
                    || (start <= a < start as int + size as int)),
            r is Ok ==> forall|a: int|
                old(self).vm@.mem.contains_key(a) ==> final(self).vm@.mem[a] == old(self).vm@.mem[a],
            r is Ok ==> forall|a: int|
                start <= a < start as int + size as int && !old(self).vm@.mem.contains_key(a)
                    ==> final(self).vm@.mem[a] == device.bytes@[a - start],
            r is Ok ==> final(self).vm@.a == old(self).vm@.a && final(self).vm@.b == old(self).vm@.b
                && final(self).vm@.c == old(self).vm@.c && final(self).vm@.m == old(self).vm@.m
                && final(self).vm@.sp == old(self).vm@.sp && final(self).vm@.pc == old(self).vm@.pc
                && final(self).vm@.bp == old(self).vm@.bp && final(self).vm@.flags == old(self).vm@.flags
                && final(self).vm@.halt == old(self).vm@.halt,
    {
        match self.vm.memory.map(start, size, device) {
            Ok(()) => Ok(()),
            Err(e) => Err(VmError::Memory(e)),
        }
    }

    /// Read a register; `Zero` reads as 0.
    pub fn get_register(&self, r: Register) -> (v: u16)
        ensures
            v == self.vm@.reg(r),
    {
        self.vm.get_register(r)
    }

    /// Write a register; a write to `Zero` is discarded.
    pub fn set_register(&mut self, r: Register, v: u16)
        ensures
            final(self).vm@ == old(self).vm@.with_reg(r, v),
            final(self).inv() == old(self).inv(),
            final(self).handlers@ == old(self).handlers@,
    {
        self.vm.set_register(r, v);
    }

    /// Whether a flag is raised.
    pub fn test_flag(&self, f: Flag) -> (r: bool)
        ensures
            r == self.vm@.flag_set(f),
    {
        self.vm.test_flag(f)
    }

    /// Raise or lower one flag; nothing else of the machine changes.
    pub fn set_flag(&mut self, f: Flag, value: bool)
        ensures
            final(self).inv() == old(self).inv(),
            final(self).handlers@ == old(self).handlers@,
            final(self).vm@ == (MachineView {
                flags: if value {
                    old(self).vm@.flags | f.spec_mask()
                } else {
                    old(self).vm@.flags & !f.spec_mask()
                },
                ..old(self).vm@
            }),
            final(self).vm@.flag_set(f) == value,
    {
        proof {
            let m = f.spec_mask();
            let fl = old(self).vm@.flags;
            assert(m == 1 || m == 2 ==> ((fl | m) & m != 0 && (fl & !m) & m == 0)) by (bit_vector);
        }
        self.vm.set_flag(f, value);
    }

    /// Whether a handler has halted the machine.
    pub fn is_halted(&self) -> (r: bool)
        ensures
            r == self.vm@.halt,
    {
        self.vm.halt
    }

    /// Register `handler` for the 4-bit signal `sig`, replacing any
    /// handler the slot held.
    pub fn define_handler(&mut self, sig: u8, handler: H)
        requires
            old(self).inv(),
            sig < 16,
        ensures
            final(self).inv(),
            final(self).handlers@ == old(self).handlers@.update(sig as int, Some(handler)),
            final(self).vm == old(self).vm,
    {
        self.handlers[sig as usize] = Some(handler);
    }

    /// Zero every register and flag and lower the halt flag; memory
    /// and handlers keep their contents.
    pub fn reset(&mut self)
        ensures
            final(self).inv() == old(self).inv(),
            final(self).handlers@ == old(self).handlers@,
            final(self).vm@ == (MachineView {
                a: 0,
                b: 0,
                c: 0,
                m: 0,
                sp: 0,
                pc: 0,
                bp: 0,
                flags: 0,
                halt: false,
                mem: old(self).vm@.mem,
            }),
    {
        self.vm.a = 0;
        self.vm.b = 0;
        self.vm.c = 0;
        self.vm.m = 0;
        self.vm.sp = 0;
        self.vm.pc = 0;
        self.vm.bp = 0;
        self.vm.flags = 0;
        self.vm.halt = false;
    }

    /// Step the machine until it halts, a fault ends the run, or
    /// `max_steps` steps have run; `Ok(true)` means the machine has
    /// halted.
    ///
    /// Until the first `System` instruction, the machine follows the
    /// pure iterated step semantics [`MachineView::spec_run`] exactly:
    /// it comes to rest on the halted state the pure run reaches,
    /// returns an error where the pure run faults, or stops on the
    /// state where the budget ran out. From the first `System`
    /// instruction on, the registered handler takes part, and only the
    /// machine invariant and the handler table are promised. The
    /// budget keeps the driver itself finite; a host wanting an
    /// unbounded run calls it again.
    pub fn run(&mut self, max_steps: usize) -> (r: Result<bool, VmError>)
        requires
            old(self).inv(),
        ensures
            final(self).inv(),
            final(self).handlers@ == old(self).handlers@,
            r matches Ok(true) ==> final(self).vm@.halt,
            ({
                let (stop, left) = old(self).vm@.spec_run(max_steps as nat);
                &&& stop.halt ==> (r == Ok::<bool, VmError>(true) && final(self).vm@ == stop)
                &&& (!stop.halt && left > 0 && stop.spec_step() is Fault) ==> (r is Err
                    && (final(self).vm@ == stop || final(self).vm@ == stop.clear_jumped()))
                &&& (!stop.halt && left == 0) ==> (r == Ok::<bool, VmError>(false)
                    && final(self).vm@ == stop)
            }),
    {
        let ghost s0 = self.vm@;
        let ghost mut diverged: bool = false;
        let mut i: usize = 0;
        while i < max_steps
            invariant
                self.inv(),
                self.handlers@ == old(self).handlers@,
                i <= max_steps,
                s0 == old(self).vm@,
                !diverged ==> s0.spec_run(max_steps as nat) == self.vm@.spec_run(
                    (max_steps - i) as nat,
                ),
                diverged ==> ({
                    let (stop, left) = s0.spec_run(max_steps as nat);
                    !stop.halt && left > 0 && stop.spec_step() is Signal
                }),
            decreases max_steps - i,
        {
            if self.is_halted() {
                proof {
                    if !diverged {
                        assert(self.vm@.spec_run((max_steps - i) as nat) == (
                            self.vm@,
                            (max_steps - i) as nat,
                        ));
                    }
                }
                return Ok(true);
            }
            let ghost pre = self.vm@;
            match self.step() {
                Ok(()) => (),
                Err(e) => {
                    proof {
                        if !diverged {
                            if pre.spec_step() is Next {
                                assert(false);
                            }
                            assert(pre.spec_run((max_steps - i) as nat) == (
                                pre,
                                (max_steps - i) as nat,
                            ));
                        }
                    }
                    return Err(e);
                },
            }
            proof {
                if !diverged {
                    match pre.spec_step() {
                        StepView::Next(p) => {
                            assert(self.vm@ == p);
                            assert(pre.spec_run((max_steps - i) as nat) == p.spec_run(
                                (max_steps - i - 1) as nat,
                            ));
                        },
                        StepView::Signal => {
                            assert(pre.spec_run((max_steps - i) as nat) == (
                                pre,
                                (max_steps - i) as nat,
                            ));
                            diverged = true;
                        },
                        StepView::Fault => {
                            assert(false);
                        },
                    }
                }
            }
            i = i + 1;
        }
        proof {
            if !diverged {
                assert(self.vm@.spec_run(0nat) == (self.vm@, 0nat));
            }
        }
        Ok(self.is_halted())
    }

    /// One fetch-decode-execute cycle.
    ///
    /// The word at `PC` is read and decoded; `HasJumped` is lowered;
    /// the instruction executes; then `PC` either stays on the jump
    /// target or advances by 2. A fetch or decode fault leaves the
    /// machine untouched; an execution fault leaves it with only
    /// `HasJumped` lowered. A `System` instruction hands the machine to
    /// the handler registered for its signal; an unregistered signal is
    /// a fault.
    pub fn step(&mut self) -> (r: Result<(), VmError>)
        requires
            old(self).inv(),
        ensures
            final(self).inv(),
            final(self).handlers@ == old(self).handlers@,
            ({
                let s = old(self).vm@;
                &&& !s.mem_ok2(s.pc as int) ==> ((r matches Err(VmError::Memory(_)))
                    && final(self).vm == old(self).vm)
                &&& s.mem_ok2(s.pc as int) ==> match Instruction::spec_decode(
                    s.word_at(s.pc as int),
                ) {
                    Err(e) => r == Err::<(), VmError>(VmError::Encoding(e)) && final(self).vm
                        == old(self).vm,
                    Ok(ins) => {
                        &&& !(ins is System) ==> match s.step_effect(ins) {
                            Some(post) => r is Ok && final(self).vm@ == post,
                            None => r is Err && final(self).vm@ == s.clear_jumped(),
                        }
                        &&& ins matches Instruction::System(a0, b0, sig) ==> (old(self).handlers@[sig.value as int] is None
                            ==> r == Err::<(), VmError>(VmError::UnknownSignal(sig.value))
                                && final(self).vm@ == s.clear_jumped())
                        &&& ins matches Instruction::System(a0, b0, sig) ==> ((old(self).handlers@[sig.value as int] is Some
                            && r is Ok) ==> exists|mid: MachineView| final(self).vm@ == #[trigger] mid.advance())
                    },
                }
            }),
    {
        let pc = self.vm.pc;
        let word = match self.vm.read_word(pc as u32) {
            Ok(w) => w,
            Err(e) => { return Err(e) },
        };
        let ins = match Instruction::decode(word) {
            Ok(i) => i,
            Err(e) => { return Err(VmError::Encoding(e)) },
        };
        proof {
            lemma_decode_wf(word);
            let fl = self.vm@.flags;
            assert(fl & !2u16 == fl & 0xfffd) by (bit_vector);
        }
        self.vm.set_flag(Flag::HasJumped, false);
        match ins {
            Instruction::System(a0, _b0, sig) => {
                let arg = self.vm.get_register(a0);
                let idx = sig.value as usize;
                match &self.handlers[idx] {
                    Some(h) => {
                        match h.handle(&mut self.vm, arg) {
                            Ok(()) => {
                                let ghost mid = self.vm@;
                                self.vm.advance_pc();
                                proof {
                                    assert(self.vm@ == mid.advance());
                                }
                                Ok(())
                            },
                            Err(e) => Err(e),
                        }
                    },
                    None => Err(VmError::UnknownSignal(sig.value)),
                }
            },
            _ => {
                match self.vm.execute(ins) {
                    Ok(()) => {
                        self.vm.advance_pc();
                        Ok(())
                    },
                    Err(e) => Err(e),
                }
            },
        }
    }
}


impl<H: SignalHandler> Default for Machine<H> {
    /// A machine with nothing mapped, no handlers, and every register,
    /// flag and the halt flag zero.
    fn default() -> (r: Self)
        ensures
            r.inv(),
            r.vm@.a == 0 && r.vm@.b == 0 && r.vm@.c == 0 && r.vm@.m == 0,
            r.vm@.sp == 0 && r.vm@.pc == 0 && r.vm@.bp == 0,
            r.vm@.flags == 0 && !r.vm@.halt,
            forall|a: int| !r.vm@.mem.contains_key(a),
            r.vm.memory.segments@.len() == 0,
            forall|i: int| 0 <= i < 16 ==> r.handlers@[i] is None,
    {
        Machine { vm: VM::new(), handlers: Machine::<H>::empty_handlers() }
    }
}

/// The `Zero` register is inert: it always reads as 0 — in particular
/// after any instruction — and a write to it, by the host or by an
/// instruction, leaves the state exactly as it was.
pub proof fn lemma_zero_register(s: MachineView, v: u16, ins: Instruction)
    ensures
        s.reg(Register::Zero) == 0,
        s.with_reg(Register::Zero, v) == s,
        s.write_reg(Register::Zero, v) == s,
        s.step_effect(ins) matches Some(post) ==> post.reg(Register::Zero) == 0,
{
}

/// A taken `AddIf(PC, PC, n)` advances the program counter by exactly
/// `2 * n` bytes, and consumes the `Compare` flag.
pub proof fn lemma_add_if_advances(s: MachineView, n: crate::op::Nibble)
    requires
        s.flag_set(Flag::Compare),
        n.wf(),
    ensures
        s.step_effect(Instruction::AddIf(Register::PC, Register::PC, n)) matches Some(post)
            && post.pc == wrap16(s.pc + 2 * n.value) && !post.flag_set(Flag::Compare),
{
    let f = s.flags;
    assert(f & 1 != 0 ==> ((f & 0xfffd) & 1 != 0 && (((f & 0xfffd) | 2) & 0xfffe) & 2 != 0 && ((((f
        & 0xfffd) | 2) & 0xfffe) & 0xfffd) & 1 == 0)) by (bit_vector);
}

} // verus!
