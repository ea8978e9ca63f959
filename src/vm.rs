use vstd::prelude::*;

use crate::memory::{lemma_word_frame, lemma_word_round_trip, word_at, write_word, Addressable, LinearMemory};

verus! {

/// Size in bytes of the memory that `Machine::new` gives a machine.
pub const DEFAULT_MEMORY_SIZE: usize = 8192;

/// The eight 16-bit registers; each has a fixed index used in the instruction encoding.
#[derive(Debug, Clone, Copy, PartialEq, Eq, Structural)]
pub enum Register {
    A,
    B,
    C,
    M,
    SP,
    PC,
    BP,
    FLAGS,
}

impl Register {
    /// The register's index in the encoding and in the register file.
    pub open spec fn id(self) -> int {
        match self {
            Register::A => 0,
            Register::B => 1,
            Register::C => 2,
            Register::M => 3,
            Register::SP => 4,
            Register::PC => 5,
            Register::BP => 6,
            Register::FLAGS => 7,
        }
    }

    /// The register's index in the encoding and in the register file.
    pub fn index(self) -> (r: usize)
        ensures
            r == self.id(),
    {
        match self {
            Register::A => 0,
            Register::B => 1,
            Register::C => 2,
            Register::M => 3,
            Register::SP => 4,
            Register::PC => 5,
            Register::BP => 6,
            Register::FLAGS => 7,
        }
    }

    /// The register with index `value`, or `None` where `value` is 8 or more.
    pub fn from_u8(value: u8) -> (r: Option<Register>)
        ensures
            r == register_of(value as int),
    {
        match value {
            0 => Some(Register::A),
            1 => Some(Register::B),
            2 => Some(Register::C),
            3 => Some(Register::M),
            4 => Some(Register::SP),
            5 => Some(Register::PC),
            6 => Some(Register::BP),
            7 => Some(Register::FLAGS),
            _ => None,
        }
    }
}

/// The register whose index is `i`, if any.
pub open spec fn register_of(i: int) -> Option<Register> {
    if i == 0 {
        Some(Register::A)
    } else if i == 1 {
        Some(Register::B)
    } else if i == 2 {
        Some(Register::C)
    } else if i == 3 {
        Some(Register::M)
    } else if i == 4 {
        Some(Register::SP)
    } else if i == 5 {
        Some(Register::PC)
    } else if i == 6 {
        Some(Register::BP)
    } else if i == 7 {
        Some(Register::FLAGS)
    } else {
        None
    }
}

/// A decoded instruction with its operands.
#[derive(Debug, Clone, Copy, PartialEq, Eq, Structural)]
pub enum Op {
    Nop,
    Push(u8),
    PopRegister(Register),
    AddStack,
    AddRegister(Register, Register),
    Mov(Register, Register),
}

impl Op {
    /// The opcode byte of the instruction's kind.
    pub open spec fn opcode(self) -> int {
        match self {
            Op::Nop => 0,
            Op::Push(_) => 1,
            Op::PopRegister(_) => 2,
            Op::AddStack => 3,
            Op::AddRegister(_, _) => 4,
            Op::Mov(_, _) => 5,
        }
    }

    /// The opcode byte of the instruction's kind.
    pub fn value(&self) -> (r: u8)
        ensures
            r == self.opcode(),
    {
        match self {
            Op::Nop => 0,
            Op::Push(_) => 1,
            Op::PopRegister(_) => 2,
            Op::AddStack => 3,
            Op::AddRegister(_, _) => 4,
            Op::Mov(_, _) => 5,
        }
    }
}

/// Why a step, a push or a pop failed.
#[derive(Debug, Clone, Copy, PartialEq, Eq, Structural)]
pub enum VmError {
    /// The opcode byte names no instruction.
    UnknownOpcode(u8),
    /// The register field of a pop names no register.
    UnknownRegister(u8),
    /// The word at the stack pointer could not be written.
    StackOverflow,
    /// The word below the stack pointer could not be read.
    StackUnderflow,
    /// The instruction word at the program counter could not be read.
    OutOfBoundsFetch,
}

/// The instruction that the word `ins` encodes: the low byte is the opcode; a
/// push takes the high byte as its value; a pop takes bits 8 to 11 as the
/// register index; the register operations always act on A and B.
pub open spec fn decode(ins: u16) -> Result<Op, VmError> {
    let opcode = ins as int % 256;
    let operand = ins as int / 256;
    if opcode == 0 {
        Ok(Op::Nop)
    } else if opcode == 1 {
        Ok(Op::Push(operand as u8))
    } else if opcode == 2 {
        match register_of(operand % 16) {
            Some(r) => Ok(Op::PopRegister(r)),
            None => Err(VmError::UnknownRegister((operand % 16) as u8)),
        }
    } else if opcode == 3 {
        Ok(Op::AddStack)
    } else if opcode == 4 {
        Ok(Op::AddRegister(Register::A, Register::B))
    } else if opcode == 5 {
        Ok(Op::Mov(Register::A, Register::B))
    } else {
        Err(VmError::UnknownOpcode(opcode as u8))
    }
}

/// Decodes the instruction word `ins`.
pub fn parse_instruction(ins: u16) -> (r: Result<Op, VmError>)
    ensures
        r == decode(ins),
{
    let op: u8 = (ins & 0xff) as u8;
    assert(op == ins % 256) by (bit_vector)
        requires
            op == (ins & 0xff) as u8,
    ;
    match op {
        0 => Ok(Op::Nop),
        1 => {
            let arg: u16 = (ins & 0xff00) >> 8u16;
            assert(arg == ins / 256) by (bit_vector)
                requires
                    arg == (ins & 0xff00) >> 8u16,
            ;
            Ok(Op::Push(arg as u8))
        },
        2 => {
            let reg: u16 = (ins & 0xf00) >> 8u16;
            assert(reg == (ins / 256) % 16) by (bit_vector)
                requires
                    reg == (ins & 0xf00) >> 8u16,
            ;
            match Register::from_u8(reg as u8) {
                Some(r) => Ok(Op::PopRegister(r)),
                None => Err(VmError::UnknownRegister(reg as u8)),
            }
        },
        3 => Ok(Op::AddStack),
        4 => Ok(Op::AddRegister(Register::A, Register::B)),
        5 => Ok(Op::Mov(Register::A, Register::B)),
        _ => Err(VmError::UnknownOpcode(op)),
    }
}

/// Sum modulo 2^16, as the 16-bit registers add.
pub open spec fn add16(a: int, b: int) -> u16 {
    ((a + b) % 0x10000) as u16
}

/// Pushes `value` onto the stack of a machine with registers `regs` and memory
/// `mem`: the word goes to the address in SP, then SP grows by 2. Where the
/// word cannot be written SP stays, and so does any byte written before the
/// failure. Gives the new registers, the new memory and the outcome.
pub open spec fn push_state(regs: Seq<u16>, mem: Seq<u8>, value: u16) -> (Seq<u16>, Seq<u8>, Result<(), VmError>) {
    let sp = regs[Register::SP.id()];
    let (m, ok) = write_word(mem, sp as int, value);
    if ok {
        (regs.update(Register::SP.id(), add16(sp as int, 2)), m, Ok(()))
    } else {
        (regs, m, Err(VmError::StackOverflow))
    }
}

/// Pops the word just below SP off the stack of a machine with registers `regs`
/// and memory `mem`: the word is read at SP - 2 (modulo 2^16) and SP is lowered
/// to that address. Where the word cannot be read, SP stays and the stack
/// underflows. Gives the new registers and the outcome.
pub open spec fn pop_state(regs: Seq<u16>, mem: Seq<u8>) -> (Seq<u16>, Result<u16, VmError>) {
    let below = add16(regs[Register::SP.id()] as int, 0xfffe);
    match word_at(mem, below as int) {
        Some(v) => (regs.update(Register::SP.id(), below), Ok(v)),
        None => (regs, Err(VmError::StackUnderflow)),
    }
}

/// The effect of the decoded instruction `op` on registers `regs` and memory `mem`.
pub open spec fn execute(regs: Seq<u16>, mem: Seq<u8>, op: Op) -> (Seq<u16>, Seq<u8>, Result<(), VmError>) {
    match op {
        Op::Nop => (regs, mem, Ok(())),
        Op::Push(v) => push_state(regs, mem, v as u16),
        Op::PopRegister(r) => {
            let (regs1, popped) = pop_state(regs, mem);
            match popped {
                Ok(v) => (regs1.update(r.id(), v), mem, Ok(())),
                Err(e) => (regs1, mem, Err(e)),
            }
        },
        Op::AddStack => {
            let (regs1, first) = pop_state(regs, mem);
            match first {
                Err(e) => (regs1, mem, Err(e)),
                Ok(x) => {
                    let (regs2, second) = pop_state(regs1, mem);
                    match second {
                        Err(e) => (regs2, mem, Err(e)),
                        Ok(y) => push_state(regs2, mem, add16(x as int, y as int)),
                    }
                },
            }
        },
        Op::AddRegister(dst, src) => (
            regs.update(dst.id(), add16(regs[dst.id()] as int, regs[src.id()] as int)),
            mem,
            Ok(()),
        ),
        Op::Mov(dst, src) => (regs.update(dst.id(), regs[src.id()]), mem, Ok(())),
    }
}

/// One fetch-decode-execute cycle on registers `regs` and memory `mem`: fetch the
/// word at PC (failing with nothing changed where it cannot be read), advance
/// PC by 2, decode (failing with only PC advanced), then execute.
pub open spec fn step_state(regs: Seq<u16>, mem: Seq<u8>) -> (Seq<u16>, Seq<u8>, Result<(), VmError>) {
    let pc = regs[Register::PC.id()];
    match word_at(mem, pc as int) {
        None => (regs, mem, Err(VmError::OutOfBoundsFetch)),
        Some(ins) => {
            let regs1 = regs.update(Register::PC.id(), add16(pc as int, 2));
            match decode(ins) {
                Err(e) => (regs1, mem, Err(e)),
                Ok(op) => execute(regs1, mem, op),
            }
        },
    }
}

/// Decoding covers the instruction set: an opcode byte from 0 to 5 gives the
/// instruction of that opcode, a push carrying the high byte and a pop carrying
/// the register whose index is in bits 8 to 11; a pop whose register bits are 8
/// or more fails with that value as an unknown register; any other opcode byte
/// fails as an unknown opcode carrying that byte.
pub proof fn lemma_decode_coverage(ins: u16)
    ensures
        ins % 256 <= 5 && !(ins % 256 == 2 && (ins / 256) % 16 >= 8) ==> decode(ins) is Ok
            && decode(ins)->Ok_0.opcode() == ins % 256,
        ins % 256 == 1 ==> decode(ins) == Ok::<Op, VmError>(Op::Push((ins / 256) as u8)),
        ins % 256 == 2 && (ins / 256) % 16 < 8 ==> (decode(ins) matches Ok(
            Op::PopRegister(r),
        ) && r.id() == (ins / 256) % 16),
        ins % 256 == 2 && (ins / 256) % 16 >= 8 ==> decode(ins) == Err::<Op, VmError>(
            VmError::UnknownRegister(((ins / 256) % 16) as u8),
        ),
        ins % 256 > 5 ==> decode(ins) == Err::<Op, VmError>(
            VmError::UnknownOpcode((ins % 256) as u8),
        ),
{
}

/// A push that succeeds, followed by a pop, gives back the value pushed and
/// leaves the registers, SP included, as they were before the push.
pub proof fn lemma_push_pop(regs: Seq<u16>, mem: Seq<u8>, value: u16)
    requires
        regs.len() == 8,
        push_state(regs, mem, value).2 is Ok,
    ensures
        pop_state(push_state(regs, mem, value).0, push_state(regs, mem, value).1) == (
            regs,
            Ok::<u16, VmError>(value),
        ),
{
    let sp = regs[Register::SP.id()];
    lemma_word_round_trip(mem, sp as int, value);
    assert(push_state(regs, mem, value).0.update(Register::SP.id(), sp) =~= regs);
}

/// Where SP leaves no room for a word below the end of memory, a push fails
/// with a stack overflow and leaves the registers, SP included, as they were;
/// where SP is past the end, memory too is left as it was.
pub proof fn lemma_push_out_of_range(regs: Seq<u16>, mem: Seq<u8>, value: u16)
    requires
        regs.len() == 8,
        regs[Register::SP.id()] + 1 >= mem.len(),
    ensures
        push_state(regs, mem, value).0 == regs,
        push_state(regs, mem, value).2 == Err::<(), VmError>(VmError::StackOverflow),
        regs[Register::SP.id()] >= mem.len() ==> push_state(regs, mem, value).1 == mem,
{
}

/// Pushing `x` then `y` and stepping over an AddStack instruction leaves
/// x + y (modulo 2^16) on top of the stack in place of both: SP is 2 above
/// where it was before the pushes (modulo 2^16), the word below it is the sum,
/// and the only other register changed is PC, advanced by 2.
#[verifier::rlimit(60)]
pub proof fn lemma_add_stack(regs: Seq<u16>, mem: Seq<u8>, x: u16, y: u16)
    requires
        regs.len() == 8,
        push_state(regs, mem, x).2 is Ok,
        push_state(push_state(regs, mem, x).0, push_state(regs, mem, x).1, y).2 is Ok,
        ({
            let r2 = push_state(push_state(regs, mem, x).0, push_state(regs, mem, x).1, y).0;
            let m2 = push_state(push_state(regs, mem, x).0, push_state(regs, mem, x).1, y).1;
            word_at(m2, r2[Register::PC.id()] as int) matches Some(ins) && ins % 256 == 3
        }),
    ensures
        ({
            let r2 = push_state(push_state(regs, mem, x).0, push_state(regs, mem, x).1, y).0;
            let m2 = push_state(push_state(regs, mem, x).0, push_state(regs, mem, x).1, y).1;
            let (r3, m3, res) = step_state(r2, m2);
            &&& res is Ok
            &&& r3 == regs.update(Register::SP.id(), add16(regs[Register::SP.id()] as int, 2)).update(
                Register::PC.id(),
                add16(regs[Register::PC.id()] as int, 2),
            )
            &&& pop_state(r3, m3).1 == Ok::<u16, VmError>(add16(x as int, y as int))
        }),
{
    let sp = regs[Register::SP.id()];
    let s1 = add16(sp as int, 2);
    lemma_push_effect(regs, mem, x);
    let (r1, m1, _) = push_state(regs, mem, x);
    lemma_push_effect(r1, m1, y);
    let (r2, m2, _) = push_state(r1, m1, y);
    let s2 = add16(s1 as int, 2);
    lemma_word_frame(m1, s1 as int, sp as int, y);
    assert(add16(s2 as int, 0xfffe) == s1);
    assert(add16(s1 as int, 0xfffe) == sp);

    let pc = r2[Register::PC.id()];
    let r1s = r2.update(Register::PC.id(), add16(pc as int, 2));
    lemma_pop_effect(r1s, m2, y);
    let ra = r1s.update(Register::SP.id(), s1);
    lemma_pop_effect(ra, m2, x);
    let rb = ra.update(Register::SP.id(), sp);
    let sum = add16(y as int, x as int);
    lemma_push_effect(rb, m2, sum);
    let (r3, m3, _) = push_state(rb, m2, sum);
    assert(execute(r1s, m2, Op::AddStack) == push_state(rb, m2, sum));
    assert(step_state(r2, m2) == push_state(rb, m2, sum));
    assert(r3 =~= regs.update(Register::SP.id(), s1).update(
        Register::PC.id(),
        add16(regs[Register::PC.id()] as int, 2),
    ));
    lemma_pop_effect(r3, m3, sum);
}

/// A push that succeeds moves SP up by 2 (modulo 2^16) and leaves the value
/// readable at the old SP.
proof fn lemma_push_effect(regs: Seq<u16>, mem: Seq<u8>, value: u16)
    requires
        regs.len() == 8,
        push_state(regs, mem, value).2 is Ok,
    ensures
        push_state(regs, mem, value).0 == regs.update(
            Register::SP.id(),
            add16(regs[Register::SP.id()] as int, 2),
        ),
        push_state(regs, mem, value).1 == write_word(mem, regs[Register::SP.id()] as int, value).0,
        word_at(push_state(regs, mem, value).1, regs[Register::SP.id()] as int) == Some(value),
{
    lemma_word_round_trip(mem, regs[Register::SP.id()] as int, value);
}

/// A pop where the word below SP reads `w` returns `w` and lowers SP to it.
proof fn lemma_pop_effect(regs: Seq<u16>, mem: Seq<u8>, w: u16)
    requires
        regs.len() == 8,
        word_at(mem, add16(regs[Register::SP.id()] as int, 0xfffe) as int) == Some(w),
    ensures
        pop_state(regs, mem) == (
            regs.update(Register::SP.id(), add16(regs[Register::SP.id()] as int, 0xfffe)),
            Ok::<u16, VmError>(w),
        ),
{
}

/// A machine: eight 16-bit registers and a memory that it owns alone.
pub struct Machine<Mem: Addressable> {
    pub registers: [u16; 8],
    pub memory: Mem,
}

impl<Mem: Addressable> Machine<Mem> {
    /// The register file, register `r` at index `r.id()`.
    pub open spec fn regs(&self) -> Seq<u16> {
        self.registers@
    }

    /// A machine with all registers zero, running on `memory`.
    pub fn with_memory(memory: Mem) -> (r: Machine<Mem>)
        ensures
            r.regs() == Seq::new(8, |i: int| 0u16),
            r.memory == memory,
    {
        let r = Machine { registers: [0u16, 0, 0, 0, 0, 0, 0, 0], memory };
        assert(r.regs() =~= Seq::new(8, |i: int| 0u16));
        r
    }

    /// The value held in register `reg`.
    pub fn get_register(&self, reg: Register) -> (r: u16)
        ensures
            r == self.regs()[reg.id()],
    {
        self.registers[reg.index()]
    }

    /// Pops the word below SP; see `pop_state`. Memory is unchanged.
    pub fn pop(&mut self) -> (r: Result<u16, VmError>)
        ensures
            (final(self).regs(), r) == pop_state(old(self).regs(), old(self).memory.bytes()),
            final(self).memory == old(self).memory,
    {
        let below = self.registers[Register::SP.index()].wrapping_sub(2);
        match self.memory.read2(below) {
            Some(v) => {
                self.registers[Register::SP.index()] = below;
                Ok(v)
            },
            None => Err(VmError::StackUnderflow),
        }
    }

    /// Pushes `value` at SP and advances SP by 2; see `push_state`.
    pub fn push(&mut self, value: u16) -> (r: Result<(), VmError>)
        ensures
            (final(self).regs(), final(self).memory.bytes(), r) == push_state(
                old(self).regs(),
                old(self).memory.bytes(),
                value,
            ),
    {
        let sp = self.registers[Register::SP.index()];
        if !self.memory.write2(sp, value) {
            return Err(VmError::StackOverflow);
        }
        self.registers[Register::SP.index()] = sp.wrapping_add(2);
        Ok(())
    }

    /// Runs one fetch-decode-execute cycle; see `step_state`. Whatever fails
    /// ends the step; what it changed before the failure stays.
    pub fn step(&mut self) -> (r: Result<(), VmError>)
        ensures
            (final(self).regs(), final(self).memory.bytes(), r) == step_state(
                old(self).regs(),
                old(self).memory.bytes(),
            ),
    {
        let pc = self.registers[Register::PC.index()];
        let instruction = match self.memory.read2(pc) {
            Some(w) => w,
            None => return Err(VmError::OutOfBoundsFetch),
        };
        self.registers[Register::PC.index()] = pc.wrapping_add(2);
        let op = match parse_instruction(instruction) {
            Ok(op) => op,
            Err(e) => return Err(e),
        };
        match op {
            Op::Nop => Ok(()),
            Op::Push(arg) => self.push(arg as u16),
            Op::PopRegister(reg) => {
                let value = match self.pop() {
                    Ok(v) => v,
                    Err(e) => return Err(e),
                };
                self.registers[reg.index()] = value;
                Ok(())
            },
            Op::AddStack => {
                let x = match self.pop() {
                    Ok(v) => v,
                    Err(e) => return Err(e),
                };
                let y = match self.pop() {
                    Ok(v) => v,
                    Err(e) => return Err(e),
                };
                self.push(x.wrapping_add(y))
            },
            Op::AddRegister(dst, src) => {
                let sum = self.registers[dst.index()].wrapping_add(self.registers[src.index()]);
                self.registers[dst.index()] = sum;
                Ok(())
            },
            Op::Mov(dst, src) => {
                self.registers[dst.index()] = self.registers[src.index()];
                Ok(())
            },
        }
    }
}

impl Machine<LinearMemory> {
    /// A machine with all registers zero and a zero-filled linear memory of
    /// `DEFAULT_MEMORY_SIZE` bytes.
    pub fn new() -> (r: Machine<LinearMemory>)
        ensures
            r.regs() == Seq::new(8, |i: int| 0u16),
            r.memory.bytes() == Seq::new(DEFAULT_MEMORY_SIZE as nat, |i: int| 0u8),
    {
        Machine::with_memory(LinearMemory::new(DEFAULT_MEMORY_SIZE))
    }
}

} // verus!
