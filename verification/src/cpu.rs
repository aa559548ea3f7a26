//! The central processing unit: register file, index register, program
//! counter, delay timer, and the fetch-decode-execute step.
//!
//! The whole cycle is specified as a pure transition function `step` from
//! (CPU, memory, keypad snapshot, random byte) to either the next state or a
//! fault; `execute_cycle_with` is proved to implement it exactly, and
//! `execute_cycle` draws the random byte and delegates.  A fault leaves the
//! machine unchanged, so a corrupted program halts rather than continuing.

use vstd::prelude::*;

verus! {

use crate::instr::{decode, lemma_decode_wf, spec_decode, Fault, Instruction};
use crate::mem::{
    lemma_mem_sizes, opcode_at, Mem, MemView, DIGITS_MEMORY_START, DIGIT_SPRITE_LEN,
    GRAPHICS_SIZE, MEMORY_SIZE, PROGRAM_MEMORY_START, STACK_SIZE,
};
use crate::sprite::{draw_rows, draw_sprite};

pub const REGISTER_COUNT: usize = 16;

/// Mathematical model of the CPU.
pub ghost struct CpuView {
    /// The 16 general-purpose registers; register 15 is the flag register.
    pub regs: Seq<u8>,
    /// The index register, a 16-bit address pointer.
    pub index: u16,
    /// The program counter, a byte address into memory.
    pub pc: u16,
    /// The delay timer; it only changes when explicitly written.
    pub delay: u8,
}

/// The register file right after construction: all zero.
pub open spec fn initial_regs() -> Seq<u8> {
    Seq::new(REGISTER_COUNT as nat, |i: int| 0u8)
}

/// 8-bit wraparound sum: the low 8 bits of the 9-bit sum.
pub open spec fn byte_add(a: u8, b: u8) -> u8 {
    ((a + b) % 256) as u8
}

/// Two's-complement truncation of `a - b` to 8 bits.
pub open spec fn byte_sub(a: u8, b: u8) -> u8 {
    if a >= b {
        (a - b) as u8
    } else {
        (a - b + 256) as u8
    }
}

/// The lowest-indexed pressed key at or above index `i`, if any.
pub open spec fn first_pressed(keypad: Seq<bool>, i: int) -> Option<u8>
    decreases 16 - i,
{
    if i < 0 || i >= 16 {
        None
    } else if keypad[i] {
        Some(i as u8)
    } else {
        first_pressed(keypad, i + 1)
    }
}

/// The byte store after registers 0..k (exclusive) have been copied to
/// addresses idx, idx+1, ...
pub open spec fn store_regs_bytes(bytes: Seq<u8>, idx: int, regs: Seq<u8>, k: int) -> Seq<u8>
    decreases k,
{
    if k <= 0 {
        bytes
    } else {
        store_regs_bytes(bytes, idx, regs, k - 1).update(idx + k - 1, regs[k - 1])
    }
}

/// The register file after memory at idx, idx+1, ... has been copied into
/// registers 0..k (exclusive).
pub open spec fn load_regs_file(regs: Seq<u8>, bytes: Seq<u8>, idx: int, k: int) -> Seq<u8>
    decreases k,
{
    if k <= 0 {
        regs
    } else {
        load_regs_file(regs, bytes, idx, k - 1).update(k - 1, bytes[idx + k - 1])
    }
}

/// The effect of one decoded instruction on the machine: either the next
/// (CPU, memory) pair, or the fault that must halt execution.  The program
/// counter policy, the flag conventions and the update order (operand
/// register first, flag register second) reproduce the instruction set
/// exactly; see each `Instruction` variant for the intended reading.
pub open spec fn apply_instr(
    i: Instruction,
    c: CpuView,
    m: MemView,
    keypad: Seq<bool>,
    rand: u8,
) -> Result<(CpuView, MemView), Fault> {
    let pc2 = (c.pc + 2) as u16;
    let pc4 = (c.pc + 4) as u16;
    match i {
        Instruction::ClearScreen => Ok((
            CpuView { pc: pc2, ..c },
            MemView { gfx: Seq::new(GRAPHICS_SIZE as nat, |j: int| 0u32), ..m },
        )),
        Instruction::ReturnFromCall => {
            if m.sp == 0 {
                Err(Fault::StackUnderflow)
            } else {
                Ok((
                    CpuView { pc: (m.stack[m.sp as int] + 2) as u16, ..c },
                    MemView { sp: (m.sp - 1) as nat, ..m },
                ))
            }
        },
        Instruction::Jump { addr } => Ok((CpuView { pc: addr, ..c }, m)),
        Instruction::Call { addr } => {
            if m.sp + 1 >= STACK_SIZE {
                Err(Fault::StackOverflow)
            } else {
                Ok((
                    CpuView { pc: addr, ..c },
                    MemView {
                        stack: m.stack.update((m.sp + 1) as int, c.pc),
                        sp: (m.sp + 1) as nat,
                        ..m
                    },
                ))
            }
        },
        Instruction::SkipEqImm { x, imm } => Ok((
            CpuView { pc: if c.regs[x as int] == imm { pc4 } else { pc2 }, ..c },
            m,
        )),
        Instruction::SkipNeImm { x, imm } => Ok((
            CpuView { pc: if c.regs[x as int] != imm { pc4 } else { pc2 }, ..c },
            m,
        )),
        Instruction::SkipEqReg { x, y } => Ok((
            CpuView {
                pc: if c.regs[x as int] == c.regs[y as int] { pc4 } else { pc2 },
                ..c
            },
            m,
        )),
        Instruction::LoadImm { x, imm } => Ok((
            CpuView { regs: c.regs.update(x as int, imm), pc: pc2, ..c },
            m,
        )),
        Instruction::AddImm { x, imm } => Ok((
            CpuView {
                regs: c.regs.update(x as int, byte_add(c.regs[x as int], imm)),
                pc: pc2,
                ..c
            },
            m,
        )),
        Instruction::CopyReg { x, y } => Ok((
            CpuView { regs: c.regs.update(x as int, c.regs[y as int]), pc: pc2, ..c },
            m,
        )),
        Instruction::OrReg { x, y } => Ok((
            CpuView {
                regs: c.regs.update(x as int, c.regs[x as int] | c.regs[y as int]),
                pc: pc2,
                ..c
            },
            m,
        )),
        Instruction::AndReg { x, y } => Ok((
            CpuView {
                regs: c.regs.update(x as int, c.regs[x as int] & c.regs[y as int]),
                pc: pc2,
                ..c
            },
            m,
        )),
        Instruction::XorReg { x, y } => Ok((
            CpuView {
                regs: c.regs.update(x as int, c.regs[x as int] ^ c.regs[y as int]),
                pc: pc2,
                ..c
            },
            m,
        )),
        Instruction::AddReg { x, y } => {
            let sum = c.regs[x as int] + c.regs[y as int];
            let regs1 = c.regs.update(x as int, byte_add(c.regs[x as int], c.regs[y as int]));
            let regs2 = regs1.update(15, if sum > 255 { 1u8 } else { 0u8 });
            Ok((CpuView { regs: regs2, pc: pc2, ..c }, m))
        },
        Instruction::SubReg { x, y } => {
            let borrow = c.regs[x as int] < c.regs[y as int];
            let regs1 = c.regs.update(x as int, byte_sub(c.regs[x as int], c.regs[y as int]));
            let regs2 = regs1.update(15, if borrow { 1u8 } else { 0u8 });
            Ok((CpuView { regs: regs2, pc: pc2, ..c }, m))
        },
        Instruction::ShiftRight { x } => {
            let regs1 = c.regs.update(15, (c.regs[x as int] % 2) as u8);
            let regs2 = regs1.update(x as int, (regs1[x as int] / 2) as u8);
            Ok((CpuView { regs: regs2, pc: pc2, ..c }, m))
        },
        Instruction::RevSubReg { x, y } => {
            let borrow = c.regs[y as int] < c.regs[x as int];
            let regs1 = c.regs.update(x as int, byte_sub(c.regs[y as int], c.regs[x as int]));
            let regs2 = regs1.update(15, if borrow { 1u8 } else { 0u8 });
            Ok((CpuView { regs: regs2, pc: pc2, ..c }, m))
        },
        Instruction::ShiftLeft { x } => {
            let regs1 = c.regs.update(15, (c.regs[x as int] / 128) as u8);
            let regs2 = regs1.update(x as int, ((regs1[x as int] * 2) % 256) as u8);
            Ok((CpuView { regs: regs2, pc: pc2, ..c }, m))
        },
        Instruction::SkipNeReg { x, y } => Ok((
            CpuView {
                pc: if c.regs[x as int] == c.regs[y as int] { pc2 } else { pc4 },
                ..c
            },
            m,
        )),
        Instruction::SetIndex { addr } => Ok((CpuView { index: addr, pc: pc2, ..c }, m)),
        Instruction::JumpOffset { addr } => Ok((
            CpuView { pc: (addr + c.regs[0]) as u16, ..c },
            m,
        )),
        Instruction::RandomMask { x, mask } => Ok((
            CpuView { regs: c.regs.update(x as int, rand & mask), pc: pc2, ..c },
            m,
        )),
        Instruction::DrawSprite { x, y, n } => {
            if n > 0 && c.index + n > MEMORY_SIZE {
                Err(Fault::MemoryFault)
            } else {
                let cx = c.regs[x as int];
                let cy = c.regs[y as int];
                let drawn = draw_rows(m.gfx, m.bytes, c.index as int, cx, cy, n as int);
                Ok((
                    CpuView {
                        regs: c.regs.update(15, if drawn.1 { 1u8 } else { 0u8 }),
                        pc: pc2,
                        ..c
                    },
                    MemView { gfx: drawn.0, ..m },
                ))
            }
        },
        Instruction::SkipKeyPressed { x } => {
            let key = c.regs[x as int];
            if key >= 16 {
                Err(Fault::KeyOutOfRange)
            } else if keypad[key as int] {
                Ok((CpuView { pc: pc4, ..c }, m))
            } else {
                Ok((c, m))
            }
        },
        Instruction::SkipKeyNotPressed { x } => {
            let key = c.regs[x as int];
            if key >= 16 {
                Err(Fault::KeyOutOfRange)
            } else if !keypad[key as int] {
                Ok((CpuView { pc: pc4, ..c }, m))
            } else {
                Ok((c, m))
            }
        },
        Instruction::LoadDelay { x } => Ok((
            CpuView { regs: c.regs.update(x as int, c.delay), pc: pc2, ..c },
            m,
        )),
        Instruction::WaitKey { x } => {
            match first_pressed(keypad, 0) {
                Some(k) => Ok((
                    CpuView { regs: c.regs.update(x as int, k), pc: pc2, ..c },
                    m,
                )),
                None => Ok((c, m)),
            }
        },
        Instruction::SetDelay { x } => Ok((
            CpuView { delay: c.regs[x as int], pc: pc2, ..c },
            m,
        )),
        Instruction::AddIndex { x } => Ok((
            CpuView {
                index: ((c.index + c.regs[x as int]) % 0x10000) as u16,
                pc: pc2,
                ..c
            },
            m,
        )),
        Instruction::GlyphIndex { x } => Ok((
            CpuView {
                index: (DIGITS_MEMORY_START + DIGIT_SPRITE_LEN * c.regs[x as int]) as u16,
                pc: pc2,
                ..c
            },
            m,
        )),
        Instruction::StoreBcd { x } => {
            if c.index < PROGRAM_MEMORY_START || c.index + 2 >= MEMORY_SIZE {
                Err(Fault::MemoryFault)
            } else {
                let v = c.regs[x as int];
                let bytes1 = m.bytes.update(c.index as int, ((v / 100) % 10) as u8).update(
                    c.index + 1,
                    ((v / 10) % 10) as u8,
                ).update(c.index + 2, (v % 10) as u8);
                Ok((CpuView { pc: pc2, ..c }, MemView { bytes: bytes1, ..m }))
            }
        },
        Instruction::StoreRegs { x } => {
            if c.index < PROGRAM_MEMORY_START || c.index + x >= MEMORY_SIZE {
                Err(Fault::MemoryFault)
            } else {
                Ok((
                    CpuView { index: (c.index + x + 1) as u16, pc: pc2, ..c },
                    MemView {
                        bytes: store_regs_bytes(m.bytes, c.index as int, c.regs, x + 1),
                        ..m
                    },
                ))
            }
        },
        Instruction::LoadRegs { x } => {
            if c.index + x >= MEMORY_SIZE {
                Err(Fault::MemoryFault)
            } else {
                Ok((
                    CpuView {
                        regs: load_regs_file(c.regs, m.bytes, c.index as int, x + 1),
                        index: (c.index + x + 1) as u16,
                        pc: pc2,
                        ..c
                    },
                    m,
                ))
            }
        },
    }
}

/// One full fetch-decode-execute step.  A program counter whose opcode would
/// leave memory, and an opcode that does not decode, are faults; otherwise
/// the decoded instruction is applied.
pub open spec fn step(c: CpuView, m: MemView, keypad: Seq<bool>, rand: u8) -> Result<
    (CpuView, MemView),
    Fault,
> {
    if c.pc + 1 >= MEMORY_SIZE {
        Err(Fault::MemoryFault)
    } else {
        match spec_decode(opcode_at(m.bytes, c.pc as int)) {
            Some(i) => apply_instr(i, c, m, keypad, rand),
            None => Err(Fault::UnrecognizedOpcode),
        }
    }
}

/// How one cycle call relates its outcome to `step`: on success the new
/// state is exactly the stepped state; on a fault the fault is returned and
/// nothing changes.
pub open spec fn cycle_outcome(
    c0: CpuView,
    m0: MemView,
    keypad: Seq<bool>,
    rand: u8,
    c1: CpuView,
    m1: MemView,
    result: Result<(), Fault>,
) -> bool {
    match step(c0, m0, keypad, rand) {
        Ok(s) => result is Ok && c1 == s.0 && m1 == s.1,
        Err(f) => result == Err::<(), Fault>(f) && c1 == c0 && m1 == m0,
    }
}

/// The instructions whose program-counter policy is a plain advance:
/// every instruction outside the jump, call, return, jump-with-offset and
/// skip families.
pub open spec fn advances_linearly(i: Instruction) -> bool {
    !(i is Jump || i is Call || i is ReturnFromCall || i is JumpOffset || i is SkipEqImm
        || i is SkipNeImm || i is SkipEqReg || i is SkipNeReg || i is SkipKeyPressed
        || i is SkipKeyNotPressed)
}

/// For every instruction outside the jump, call, return, jump-with-offset
/// and skip families, a successful cycle advances the program counter by
/// exactly 2.  Wait-for-key needs one extra hypothesis: with no key pressed
/// the whole cycle is a no-op that leaves the program counter unchanged, so
/// the advance is owed only when some key is pressed.
pub proof fn lemma_pc_advances_by_two(c: CpuView, m: MemView, keypad: Seq<bool>, rand: u8)
    requires
        step(c, m, keypad, rand) is Ok,
        spec_decode(opcode_at(m.bytes, c.pc as int)) matches Some(i) && advances_linearly(i),
        (spec_decode(opcode_at(m.bytes, c.pc as int)) matches Some(i) && i is WaitKey)
            ==> first_pressed(keypad, 0) is Some,
    ensures
        step(c, m, keypad, rand) matches Ok(s) && s.0.pc == c.pc + 2,
{
}

/// Relies on rand::random: one randomly drawn byte.  Nothing is promised of
/// its value; callers must hold for every byte that comes back.
#[verifier::external_body]
fn random_byte() -> u8 {
    rand::random::<u8>()
}

pub struct Cpu {
    registers: [u8; REGISTER_COUNT],
    index: u16,
    program_counter: u16,
    delay_timer: u8,
}

impl View for Cpu {
    type V = CpuView;

    closed spec fn view(&self) -> CpuView {
        CpuView {
            regs: self.registers@,
            index: self.index,
            pc: self.program_counter,
            delay: self.delay_timer,
        }
    }
}

impl Cpu {
    /// Registers, index and delay timer start zeroed; the program counter
    /// starts at the first program byte.
    pub fn new() -> (cpu: Cpu)
        ensures
            cpu@ == (CpuView { regs: initial_regs(), index: 0u16, pc: 0x200u16, delay: 0u8 }),
    {
        let cpu = Cpu {
            registers: [0; REGISTER_COUNT],
            index: 0,
            program_counter: 0x200,
            delay_timer: 0,
        };
        proof {
            assert(cpu.registers@ =~= initial_regs());
        }
        cpu
    }

    /// Advances the program counter by `count` bytes.
    pub fn increase_program_counter(&mut self, count: u16)
        requires
            old(self)@.pc + count <= u16::MAX,
        ensures
            final(self)@ == (CpuView { pc: (old(self)@.pc + count) as u16, ..old(self)@ }),
    {
        self.program_counter += count;
    }

    /// Writes a general-purpose register.  An index of 16 or more is a
    /// contract violation, caught at decode time and ruled out here.
    pub fn set_register_value(&mut self, register_index: usize, value: u8)
        requires
            register_index < REGISTER_COUNT,
        ensures
            final(self)@ == (CpuView {
                regs: old(self)@.regs.update(register_index as int, value),
                ..old(self)@
            }),
    {
        self.registers[register_index] = value;
    }

    /// The current program counter.
    pub fn program_counter(&self) -> (pc: u16)
        ensures
            pc == self@.pc,
    {
        self.program_counter
    }

    /// The current index register.
    pub fn index(&self) -> (index: u16)
        ensures
            index == self@.index,
    {
        self.index
    }

    /// Points the index register at an arbitrary address.
    pub fn set_index(&mut self, index: u16)
        ensures
            final(self)@ == (CpuView { index: index, ..old(self)@ }),
    {
        self.index = index;
    }

    /// The current delay timer value.
    pub fn delay_timer(&self) -> (delay: u8)
        ensures
            delay == self@.delay,
    {
        self.delay_timer
    }

    /// Writes the delay timer.
    pub fn set_delay_timer(&mut self, delay: u8)
        ensures
            final(self)@ == (CpuView { delay: delay, ..old(self)@ }),
    {
        self.delay_timer = delay;
    }

    /// Reads a general-purpose register.
    pub fn register(&self, register_index: usize) -> (value: u8)
        requires
            register_index < REGISTER_COUNT,
        ensures
            value == self@.regs[register_index as int],
    {
        self.registers[register_index]
    }

    /// Runs one fetch-decode-execute step, drawing the random byte that the
    /// random-and-mask instruction consumes.  Every other effect is pinned
    /// by `step`, whatever byte was drawn.
    pub fn execute_cycle(&mut self, mem: &mut Mem, keypad: &[bool; 16]) -> (result: Result<
        (),
        Fault,
    >)
        requires
            old(mem)@.wf(),
        ensures
            final(mem)@.wf(),
            exists|rand: u8|
                cycle_outcome(
                    old(self)@,
                    old(mem)@,
                    keypad@,
                    rand,
                    final(self)@,
                    final(mem)@,
                    result,
                ),
    {
        let rand = random_byte();
        let result = self.execute_cycle_with(mem, keypad, rand);
        proof {
            assert(cycle_outcome(old(self)@, old(mem)@, keypad@, rand, self@, mem@, result));
        }
        result
    }

    /// Runs one fetch-decode-execute step with the given random byte: the
    /// machine moves to exactly the state `step` describes, or reports the
    /// fault `step` describes and leaves every part of the state unchanged.
    pub fn execute_cycle_with(&mut self, mem: &mut Mem, keypad: &[bool; 16], rand: u8) -> (result:
        Result<(), Fault>)
        requires
            old(mem)@.wf(),
        ensures
            final(mem)@.wf(),
            cycle_outcome(old(self)@, old(mem)@, keypad@, rand, final(self)@, final(mem)@, result),
    {
        if self.program_counter as usize + 1 >= MEMORY_SIZE {
            return Err(Fault::MemoryFault);
        }
        let opcode = mem.fetch_opcode(self.program_counter as usize);
        let instr = match decode(opcode) {
            Some(i) => i,
            None => {
                return Err(Fault::UnrecognizedOpcode);
            },
        };
        proof {
            lemma_decode_wf(opcode);
        }
        match instr {
            Instruction::ClearScreen => {
                mem.clear_graphics();
                self.increase_program_counter(2);
                Ok(())
            },
            Instruction::ReturnFromCall => {
                if mem.stack_depth() == 0 {
                    return Err(Fault::StackUnderflow);
                }
                let ret = mem.pop();
                self.program_counter = ret;
                self.increase_program_counter(2);
                Ok(())
            },
            Instruction::Jump { addr } => {
                self.program_counter = addr;
                Ok(())
            },
            Instruction::Call { addr } => {
                if mem.stack_depth() + 1 >= STACK_SIZE {
                    return Err(Fault::StackOverflow);
                }
                mem.push(self.program_counter);
                self.program_counter = addr;
                Ok(())
            },
            Instruction::SkipEqImm { x, imm } => {
                if self.registers[x as usize] == imm {
                    self.increase_program_counter(4);
                } else {
                    self.increase_program_counter(2);
                }
                Ok(())
            },
            Instruction::SkipNeImm { x, imm } => {
                if self.registers[x as usize] != imm {
                    self.increase_program_counter(4);
                } else {
                    self.increase_program_counter(2);
                }
                Ok(())
            },
            Instruction::SkipEqReg { x, y } => {
                if self.registers[x as usize] == self.registers[y as usize] {
                    self.increase_program_counter(4);
                } else {
                    self.increase_program_counter(2);
                }
                Ok(())
            },
            Instruction::LoadImm { x, imm } => {
                self.set_register_value(x as usize, imm);
                self.increase_program_counter(2);
                Ok(())
            },
            Instruction::AddImm { x, imm } => {
                let sum: u16 = self.registers[x as usize] as u16 + imm as u16;
                self.set_register_value(x as usize, (sum % 256) as u8);
                self.increase_program_counter(2);
                Ok(())
            },
            Instruction::CopyReg { x, y } => {
                self.set_register_value(x as usize, self.registers[y as usize]);
                self.increase_program_counter(2);
                Ok(())
            },
            Instruction::OrReg { x, y } => {
                self.set_register_value(
                    x as usize,
                    self.registers[x as usize] | self.registers[y as usize],
                );
                self.increase_program_counter(2);
                Ok(())
            },
            Instruction::AndReg { x, y } => {
                self.set_register_value(
                    x as usize,
                    self.registers[x as usize] & self.registers[y as usize],
                );
                self.increase_program_counter(2);
                Ok(())
            },
            Instruction::XorReg { x, y } => {
                self.set_register_value(
                    x as usize,
                    self.registers[x as usize] ^ self.registers[y as usize],
                );
                self.increase_program_counter(2);
                Ok(())
            },
            Instruction::AddReg { x, y } => {
                let sum: u16 = self.registers[x as usize] as u16
                    + self.registers[y as usize] as u16;
                let carry = sum > 0xFF;
                self.set_register_value(x as usize, (sum % 256) as u8);
                self.set_register_value(0xF, if carry { 1 } else { 0 });
                self.increase_program_counter(2);
                Ok(())
            },
            Instruction::SubReg { x, y } => {
                let rx = self.registers[x as usize];
                let ry = self.registers[y as usize];
                let borrow = rx < ry;
                let value = if rx >= ry {
                    rx - ry
                } else {
                    (rx as u16 + 256 - ry as u16) as u8
                };
                self.set_register_value(x as usize, value);
                self.set_register_value(0xF, if borrow { 1 } else { 0 });
                self.increase_program_counter(2);
                Ok(())
            },
            Instruction::ShiftRight { x } => {
                self.set_register_value(15, self.registers[x as usize] % 2);
                self.set_register_value(x as usize, self.registers[x as usize] / 2);
                self.increase_program_counter(2);
                Ok(())
            },
            Instruction::RevSubReg { x, y } => {
                let rx = self.registers[x as usize];
                let ry = self.registers[y as usize];
                let borrow = ry < rx;
                let value = if ry >= rx {
                    ry - rx
                } else {
                    (ry as u16 + 256 - rx as u16) as u8
                };
                self.set_register_value(x as usize, value);
                self.set_register_value(0xF, if borrow { 1 } else { 0 });
                self.increase_program_counter(2);
                Ok(())
            },
            Instruction::ShiftLeft { x } => {
                self.set_register_value(15, self.registers[x as usize] / 128);
                let doubled: u16 = self.registers[x as usize] as u16 * 2;
                self.set_register_value(x as usize, (doubled % 256) as u8);
                self.increase_program_counter(2);
                Ok(())
            },
            Instruction::SkipNeReg { x, y } => {
                if self.registers[x as usize] == self.registers[y as usize] {
                    self.increase_program_counter(2);
                } else {
                    self.increase_program_counter(4);
                }
                Ok(())
            },
            Instruction::SetIndex { addr } => {
                self.index = addr;
                self.increase_program_counter(2);
                Ok(())
            },
            Instruction::JumpOffset { addr } => {
                self.program_counter = addr + self.registers[0] as u16;
                Ok(())
            },
            Instruction::RandomMask { x, mask } => {
                self.set_register_value(x as usize, rand & mask);
                self.increase_program_counter(2);
                Ok(())
            },
            Instruction::DrawSprite { x, y, n } => {
                if n > 0 && self.index as usize + n as usize > MEMORY_SIZE {
                    return Err(Fault::MemoryFault);
                }
                let cx = self.registers[x as usize];
                let cy = self.registers[y as usize];
                let collision = draw_sprite(mem, self.index, cx, cy, n);
                proof {
                    lemma_mem_sizes(mem);
                }
                self.set_register_value(15, if collision { 1 } else { 0 });
                self.increase_program_counter(2);
                Ok(())
            },
            Instruction::SkipKeyPressed { x } => {
                let key = self.registers[x as usize];
                if key >= 16 {
                    return Err(Fault::KeyOutOfRange);
                }
                if keypad[key as usize] {
                    self.increase_program_counter(4);
                }
                Ok(())
            },
            Instruction::SkipKeyNotPressed { x } => {
                let key = self.registers[x as usize];
                if key >= 16 {
                    return Err(Fault::KeyOutOfRange);
                }
                if !keypad[key as usize] {
                    self.increase_program_counter(4);
                }
                Ok(())
            },
            Instruction::LoadDelay { x } => {
                self.set_register_value(x as usize, self.delay_timer);
                self.increase_program_counter(2);
                Ok(())
            },
            Instruction::WaitKey { x } => {
                let mut found: Option<u8> = None;
                let mut k: usize = 0;
                while k < 16
                    invariant
                        k <= 16,
                        found is Some ==> found == first_pressed(keypad@, 0),
                        found is None ==> first_pressed(keypad@, 0) == first_pressed(
                            keypad@,
                            k as int,
                        ),
                        found matches Some(j) ==> j < 16,
                    decreases 16 - k,
                {
                    if found.is_none() && keypad[k] {
                        found = Some(k as u8);
                    }
                    k += 1;
                }
                match found {
                    Some(key) => {
                        self.set_register_value(x as usize, key);
                        self.increase_program_counter(2);
                    },
                    None => {},
                }
                Ok(())
            },
            Instruction::SetDelay { x } => {
                self.delay_timer = self.registers[x as usize];
                self.increase_program_counter(2);
                Ok(())
            },
            Instruction::AddIndex { x } => {
                let sum: u32 = self.index as u32 + self.registers[x as usize] as u32;
                self.index = (sum % 0x10000) as u16;
                self.increase_program_counter(2);
                Ok(())
            },
            Instruction::GlyphIndex { x } => {
                self.index = mem.get_address_for_digit(self.registers[x as usize]);
                self.increase_program_counter(2);
                Ok(())
            },
            Instruction::StoreBcd { x } => {
                if self.index < PROGRAM_MEMORY_START as u16
                    || self.index as usize + 2 >= MEMORY_SIZE {
                    return Err(Fault::MemoryFault);
                }
                let v = self.registers[x as usize];
                mem.store(self.index as usize, (v / 100) % 10);
                mem.store(self.index as usize + 1, (v / 10) % 10);
                mem.store(self.index as usize + 2, v % 10);
                self.increase_program_counter(2);
                Ok(())
            },
            Instruction::StoreRegs { x } => {
                if self.index < PROGRAM_MEMORY_START as u16
                    || self.index as usize + x as usize >= MEMORY_SIZE {
                    return Err(Fault::MemoryFault);
                }
                let count = x as usize + 1;
                let base = self.index as usize;
                let mut k: usize = 0;
                while k < count
                    invariant
                        k <= count,
                        count == x + 1,
                        x < 16,
                        base == old(self)@.index,
                        PROGRAM_MEMORY_START <= base,
                        base + x < MEMORY_SIZE,
                        self@ == old(self)@,
                        mem@.bytes == store_regs_bytes(
                            old(mem)@.bytes,
                            base as int,
                            old(self)@.regs,
                            k as int,
                        ),
                        mem@.stack == old(mem)@.stack,
                        mem@.sp == old(mem)@.sp,
                        mem@.gfx == old(mem)@.gfx,
                    decreases count - k,
                {
                    mem.store(base + k, self.registers[k]);
                    k += 1;
                }
                proof {
                    lemma_mem_sizes(mem);
                }
                self.index = self.index + x as u16 + 1;
                self.increase_program_counter(2);
                Ok(())
            },
            Instruction::LoadRegs { x } => {
                if self.index as usize + x as usize >= MEMORY_SIZE {
                    return Err(Fault::MemoryFault);
                }
                let count = x as usize + 1;
                let base = self.index as usize;
                let mut k: usize = 0;
                while k < count
                    invariant
                        k <= count,
                        count == x + 1,
                        x < 16,
                        base == old(self)@.index,
                        base + x < MEMORY_SIZE,
                        mem@ == old(mem)@,
                        self@.regs == load_regs_file(
                            old(self)@.regs,
                            old(mem)@.bytes,
                            base as int,
                            k as int,
                        ),
                        self@.index == old(self)@.index,
                        self@.pc == old(self)@.pc,
                        self@.delay == old(self)@.delay,
                    decreases count - k,
                {
                    let b = mem.fetch(base + k);
                    self.set_register_value(k, b);
                    k += 1;
                }
                self.index = self.index + x as u16 + 1;
                self.increase_program_counter(2);
                Ok(())
            },
        }
    }
}

impl Default for Cpu {
    fn default() -> (cpu: Self)
        ensures
            cpu@ == (CpuView { regs: initial_regs(), index: 0u16, pc: 0x200u16, delay: 0u8 }),
    {
        Self::new()
    }
}

} // verus!
