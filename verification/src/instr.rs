//! Instruction decode: the raw 16-bit opcode is turned into a tagged
//! instruction variant as a pure step, so that execution can be specified as
//! a transition function over decoded instructions.
//!
//! The top nibble selects one of 16 instruction families; families 0x0, 0x8,
//! 0xE and 0xF additionally dispatch on the low nibble or low byte.  Any
//! combination not recognized at either level decodes to `None`; executing
//! it reports a fault and halts, so a program never spins silently at a
//! stuck program counter.

use vstd::prelude::*;

verus! {

/// A decoded instruction.  Register operands are always nibbles of the
/// opcode, so they lie in [0, 15] by construction (see `Instruction::wf`).
#[derive(Clone, Copy, Debug, PartialEq, Eq, Structural)]
pub enum Instruction {
    /// 00X0: clear the framebuffer.
    ClearScreen,
    /// 00XE: pop the stack into the program counter.
    ReturnFromCall,
    /// 1NNN: replace the program counter.
    Jump { addr: u16 },
    /// 2NNN: push the program counter, then replace it.
    Call { addr: u16 },
    /// 3XKK: skip the next instruction when register X equals the immediate.
    SkipEqImm { x: u8, imm: u8 },
    /// 4XKK: skip the next instruction when register X differs from the immediate.
    SkipNeImm { x: u8, imm: u8 },
    /// 5XY_: skip the next instruction when registers X and Y are equal.
    SkipEqReg { x: u8, y: u8 },
    /// 6XKK: register X := immediate.
    LoadImm { x: u8, imm: u8 },
    /// 7XKK: register X := X + immediate, 8-bit wraparound, no flag effect.
    AddImm { x: u8, imm: u8 },
    /// 8XY0: register X := register Y.
    CopyReg { x: u8, y: u8 },
    /// 8XY1: register X := X | Y.
    OrReg { x: u8, y: u8 },
    /// 8XY2: register X := X & Y.
    AndReg { x: u8, y: u8 },
    /// 8XY3: register X := X ^ Y.
    XorReg { x: u8, y: u8 },
    /// 8XY4: register X := low byte of X + Y; flag register := carry.
    AddReg { x: u8, y: u8 },
    /// 8XY5: register X := low byte of X - Y; flag register := 1 on borrow.
    SubReg { x: u8, y: u8 },
    /// 8X_6: flag register := least-significant bit of X; X := X >> 1.
    ShiftRight { x: u8 },
    /// 8XY7: register X := low byte of Y - X; flag register := 1 on borrow.
    RevSubReg { x: u8, y: u8 },
    /// 8X_E: flag register := most-significant bit of X; X := low byte of X << 1.
    ShiftLeft { x: u8 },
    /// 9XY_: skip the next instruction when registers X and Y differ.
    SkipNeReg { x: u8, y: u8 },
    /// ANNN: index register := NNN.
    SetIndex { addr: u16 },
    /// BNNN: program counter := NNN + register 0.
    JumpOffset { addr: u16 },
    /// CXKK: register X := random byte & immediate mask.
    RandomMask { x: u8, mask: u8 },
    /// DXYN: draw the N-row sprite at the index register to the coordinates
    /// held in registers X and Y; flag register := collision.
    DrawSprite { x: u8, y: u8, n: u8 },
    /// EX9E: skip the next instruction when the key indexed by register X is
    /// pressed; otherwise the program counter is left unchanged.
    SkipKeyPressed { x: u8 },
    /// EXA1: skip the next instruction when the key indexed by register X is
    /// not pressed; otherwise the program counter is left unchanged.
    SkipKeyNotPressed { x: u8 },
    /// FX07: register X := delay timer.
    LoadDelay { x: u8 },
    /// FX0A: wait for a key: store the lowest pressed key index in register
    /// X, or leave all state unchanged when no key is pressed.
    WaitKey { x: u8 },
    /// FX15: delay timer := register X.
    SetDelay { x: u8 },
    /// FX1E: index register := index + register X, 16-bit wraparound.
    AddIndex { x: u8 },
    /// FX29: index register := glyph address for the digit in register X.
    GlyphIndex { x: u8 },
    /// FX33: store the decimal digits of register X at index, index+1, index+2.
    StoreBcd { x: u8 },
    /// FX55: copy registers 0..=X into memory at index; index := index + X + 1.
    StoreRegs { x: u8 },
    /// FX65: copy memory at index into registers 0..=X; index := index + X + 1.
    LoadRegs { x: u8 },
}

/// A run-time fatal condition.  Execution reports it and changes nothing,
/// so a corrupted program cannot silently continue.
#[derive(Clone, Copy, Debug, PartialEq, Eq, Structural)]
pub enum Fault {
    /// The opcode, or its sub-opcode, is not part of the instruction set.
    UnrecognizedOpcode,
    /// A read left the 4096 addressable bytes, or a write landed below the
    /// program boundary or left memory.
    MemoryFault,
    /// A call would exceed the call-stack capacity.
    StackOverflow,
    /// A return was executed with an empty call stack.
    StackUnderflow,
    /// A skip-on-key instruction read a key index above 15 from a register.
    KeyOutOfRange,
}

impl Instruction {
    /// Every operand decoded from an opcode nibble lies in its declared
    /// range; a register index of 16 can never reach execution.
    pub open spec fn wf(self) -> bool {
        match self {
            Instruction::ClearScreen => true,
            Instruction::ReturnFromCall => true,
            Instruction::Jump { addr } => addr < 0x1000,
            Instruction::Call { addr } => addr < 0x1000,
            Instruction::SkipEqImm { x, imm } => x < 16,
            Instruction::SkipNeImm { x, imm } => x < 16,
            Instruction::SkipEqReg { x, y } => x < 16 && y < 16,
            Instruction::LoadImm { x, imm } => x < 16,
            Instruction::AddImm { x, imm } => x < 16,
            Instruction::CopyReg { x, y } => x < 16 && y < 16,
            Instruction::OrReg { x, y } => x < 16 && y < 16,
            Instruction::AndReg { x, y } => x < 16 && y < 16,
            Instruction::XorReg { x, y } => x < 16 && y < 16,
            Instruction::AddReg { x, y } => x < 16 && y < 16,
            Instruction::SubReg { x, y } => x < 16 && y < 16,
            Instruction::ShiftRight { x } => x < 16,
            Instruction::RevSubReg { x, y } => x < 16 && y < 16,
            Instruction::ShiftLeft { x } => x < 16,
            Instruction::SkipNeReg { x, y } => x < 16 && y < 16,
            Instruction::SetIndex { addr } => addr < 0x1000,
            Instruction::JumpOffset { addr } => addr < 0x1000,
            Instruction::RandomMask { x, mask } => x < 16,
            Instruction::DrawSprite { x, y, n } => x < 16 && y < 16 && n < 16,
            Instruction::SkipKeyPressed { x } => x < 16,
            Instruction::SkipKeyNotPressed { x } => x < 16,
            Instruction::LoadDelay { x } => x < 16,
            Instruction::WaitKey { x } => x < 16,
            Instruction::SetDelay { x } => x < 16,
            Instruction::AddIndex { x } => x < 16,
            Instruction::GlyphIndex { x } => x < 16,
            Instruction::StoreBcd { x } => x < 16,
            Instruction::StoreRegs { x } => x < 16,
            Instruction::LoadRegs { x } => x < 16,
        }
    }
}

/// What `decode` returns: the instruction family is the top nibble; the
/// operands are the remaining nibbles read positionally.
pub open spec fn spec_decode(op: u16) -> Option<Instruction> {
    let fam = op / 0x1000;
    let x = ((op / 0x100) % 0x10) as u8;
    let y = ((op / 0x10) % 0x10) as u8;
    let n = (op % 0x10) as u8;
    let imm = (op % 0x100) as u8;
    let addr = op % 0x1000;
    if fam == 0x0 {
        if n == 0x0 {
            Some(Instruction::ClearScreen)
        } else if n == 0xE {
            Some(Instruction::ReturnFromCall)
        } else {
            None
        }
    } else if fam == 0x1 {
        Some(Instruction::Jump { addr })
    } else if fam == 0x2 {
        Some(Instruction::Call { addr })
    } else if fam == 0x3 {
        Some(Instruction::SkipEqImm { x, imm })
    } else if fam == 0x4 {
        Some(Instruction::SkipNeImm { x, imm })
    } else if fam == 0x5 {
        Some(Instruction::SkipEqReg { x, y })
    } else if fam == 0x6 {
        Some(Instruction::LoadImm { x, imm })
    } else if fam == 0x7 {
        Some(Instruction::AddImm { x, imm })
    } else if fam == 0x8 {
        if n == 0x0 {
            Some(Instruction::CopyReg { x, y })
        } else if n == 0x1 {
            Some(Instruction::OrReg { x, y })
        } else if n == 0x2 {
            Some(Instruction::AndReg { x, y })
        } else if n == 0x3 {
            Some(Instruction::XorReg { x, y })
        } else if n == 0x4 {
            Some(Instruction::AddReg { x, y })
        } else if n == 0x5 {
            Some(Instruction::SubReg { x, y })
        } else if n == 0x6 {
            Some(Instruction::ShiftRight { x })
        } else if n == 0x7 {
            Some(Instruction::RevSubReg { x, y })
        } else if n == 0xE {
            Some(Instruction::ShiftLeft { x })
        } else {
            None
        }
    } else if fam == 0x9 {
        Some(Instruction::SkipNeReg { x, y })
    } else if fam == 0xA {
        Some(Instruction::SetIndex { addr })
    } else if fam == 0xB {
        Some(Instruction::JumpOffset { addr })
    } else if fam == 0xC {
        Some(Instruction::RandomMask { x, mask: imm })
    } else if fam == 0xD {
        Some(Instruction::DrawSprite { x, y, n })
    } else if fam == 0xE {
        if imm == 0x9E {
            Some(Instruction::SkipKeyPressed { x })
        } else if imm == 0xA1 {
            Some(Instruction::SkipKeyNotPressed { x })
        } else {
            None
        }
    } else {
        // fam == 0xF; the sound-timer slot FX18 is not part of this core
        // (audio is a non-goal), so it stays unrecognized.
        if imm == 0x07 {
            Some(Instruction::LoadDelay { x })
        } else if imm == 0x0A {
            Some(Instruction::WaitKey { x })
        } else if imm == 0x15 {
            Some(Instruction::SetDelay { x })
        } else if imm == 0x1E {
            Some(Instruction::AddIndex { x })
        } else if imm == 0x29 {
            Some(Instruction::GlyphIndex { x })
        } else if imm == 0x33 {
            Some(Instruction::StoreBcd { x })
        } else if imm == 0x55 {
            Some(Instruction::StoreRegs { x })
        } else if imm == 0x65 {
            Some(Instruction::LoadRegs { x })
        } else {
            None
        }
    }
}

/// Every decoded instruction has well-formed operands: each is a nibble or
/// the low 12 bits of the opcode.
pub proof fn lemma_decode_wf(op: u16)
    ensures
        spec_decode(op) matches Some(i) ==> i.wf(),
{
}

/// Decodes a raw opcode, or reports that it is unrecognized.
pub fn decode(op: u16) -> (instr: Option<Instruction>)
    ensures
        instr == spec_decode(op),
{
    let fam = op / 0x1000;
    let x = ((op / 0x100) % 0x10) as u8;
    let y = ((op / 0x10) % 0x10) as u8;
    let n = (op % 0x10) as u8;
    let imm = (op % 0x100) as u8;
    let addr = op % 0x1000;
    if fam == 0x0 {
        if n == 0x0 {
            Some(Instruction::ClearScreen)
        } else if n == 0xE {
            Some(Instruction::ReturnFromCall)
        } else {
            None
        }
    } else if fam == 0x1 {
        Some(Instruction::Jump { addr })
    } else if fam == 0x2 {
        Some(Instruction::Call { addr })
    } else if fam == 0x3 {
        Some(Instruction::SkipEqImm { x, imm })
    } else if fam == 0x4 {
        Some(Instruction::SkipNeImm { x, imm })
    } else if fam == 0x5 {
        Some(Instruction::SkipEqReg { x, y })
    } else if fam == 0x6 {
        Some(Instruction::LoadImm { x, imm })
    } else if fam == 0x7 {
        Some(Instruction::AddImm { x, imm })
    } else if fam == 0x8 {
        if n == 0x0 {
            Some(Instruction::CopyReg { x, y })
        } else if n == 0x1 {
            Some(Instruction::OrReg { x, y })
        } else if n == 0x2 {
            Some(Instruction::AndReg { x, y })
        } else if n == 0x3 {
            Some(Instruction::XorReg { x, y })
        } else if n == 0x4 {
            Some(Instruction::AddReg { x, y })
        } else if n == 0x5 {
            Some(Instruction::SubReg { x, y })
        } else if n == 0x6 {
            Some(Instruction::ShiftRight { x })
        } else if n == 0x7 {
            Some(Instruction::RevSubReg { x, y })
        } else if n == 0xE {
            Some(Instruction::ShiftLeft { x })
        } else {
            None
        }
    } else if fam == 0x9 {
        Some(Instruction::SkipNeReg { x, y })
    } else if fam == 0xA {
        Some(Instruction::SetIndex { addr })
    } else if fam == 0xB {
        Some(Instruction::JumpOffset { addr })
    } else if fam == 0xC {
        Some(Instruction::RandomMask { x, mask: imm })
    } else if fam == 0xD {
        Some(Instruction::DrawSprite { x, y, n })
    } else if fam == 0xE {
        if imm == 0x9E {
            Some(Instruction::SkipKeyPressed { x })
        } else if imm == 0xA1 {
            Some(Instruction::SkipKeyNotPressed { x })
        } else {
            None
        }
    } else {
        if imm == 0x07 {
            Some(Instruction::LoadDelay { x })
        } else if imm == 0x0A {
            Some(Instruction::WaitKey { x })
        } else if imm == 0x15 {
            Some(Instruction::SetDelay { x })
        } else if imm == 0x1E {
            Some(Instruction::AddIndex { x })
        } else if imm == 0x29 {
            Some(Instruction::GlyphIndex { x })
        } else if imm == 0x33 {
            Some(Instruction::StoreBcd { x })
        } else if imm == 0x55 {
            Some(Instruction::StoreRegs { x })
        } else if imm == 0x65 {
            Some(Instruction::LoadRegs { x })
        } else {
            None
        }
    }
}

} // verus!
