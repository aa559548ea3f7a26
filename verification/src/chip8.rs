//! The machine facade: one CPU and one memory, exposed to the host as
//! "load a program" and "run one cycle".

use vstd::prelude::*;

verus! {

use crate::cpu::{cycle_outcome, initial_regs, Cpu, CpuView};
use crate::instr::Fault;
use crate::mem::{
    initial_bytes, Mem, MemView, GRAPHICS_SIZE, MEMORY_SIZE, PROGRAM_MEMORY_START, STACK_SIZE,
};

pub struct Chip8 {
    pub cpu: Cpu,
    pub mem: Mem,
}

impl Chip8 {
    /// A fresh machine: zeroed registers and framebuffer, the glyph table in
    /// place, and the program counter at the first program byte.
    pub fn new() -> (machine: Chip8)
        ensures
            machine.mem@.wf(),
            machine.mem@.bytes == initial_bytes(),
            machine.mem@.stack == Seq::new(STACK_SIZE as nat, |i: int| 0u16),
            machine.mem@.sp == 0,
            machine.mem@.gfx == Seq::new(GRAPHICS_SIZE as nat, |i: int| 0u32),
            machine.cpu@ == (CpuView {
                regs: initial_regs(),
                index: 0u16,
                pc: 0x200u16,
                delay: 0u8,
            }),
    {
        Chip8 { mem: Mem::new(), cpu: Cpu::new() }
    }

    /// Loads a byte buffer as the program, verbatim at 0x200.  Fails with a
    /// recoverable error, changing nothing, when the buffer does not fit;
    /// the caller decides whether to abort.
    pub fn load_program(&mut self, program: &[u8]) -> (result: Result<(), &'static str>)
        ensures
            final(self).cpu@ == old(self).cpu@,
            result is Ok <==> PROGRAM_MEMORY_START + program@.len() <= MEMORY_SIZE,
            result is Ok ==> final(self).mem@ == (MemView {
                bytes: old(self).mem@.bytes.subrange(0, PROGRAM_MEMORY_START as int)
                    + program@
                    + old(self).mem@.bytes.subrange(
                        PROGRAM_MEMORY_START + program@.len(),
                        MEMORY_SIZE as int,
                    ),
                ..old(self).mem@
            }),
            result matches Err(msg) ==> final(self).mem@ == old(self).mem@
                && msg@ == "Program is too large to fit in memory"@,
    {
        self.mem.load_program(program)
    }

    /// Runs one full fetch-decode-execute step against the given keypad
    /// snapshot: the machine moves to the state `step` describes for some
    /// random byte, or reports a fault and stays unchanged.
    pub fn run_cycle(&mut self, keypad: &[bool; 16]) -> (result: Result<(), Fault>)
        requires
            old(self).mem@.wf(),
        ensures
            final(self).mem@.wf(),
            exists|rand: u8|
                cycle_outcome(
                    old(self).cpu@,
                    old(self).mem@,
                    keypad@,
                    rand,
                    final(self).cpu@,
                    final(self).mem@,
                    result,
                ),
    {
        let result = self.cpu.execute_cycle(&mut self.mem, keypad);
        proof {
            let r = choose|rand: u8|
                cycle_outcome(
                    old(self).cpu@,
                    old(self).mem@,
                    keypad@,
                    rand,
                    self.cpu@,
                    self.mem@,
                    result,
                );
            assert(cycle_outcome(
                old(self).cpu@,
                old(self).mem@,
                keypad@,
                r,
                self.cpu@,
                self.mem@,
                result,
            ));
        }
        result
    }
}

impl Default for Chip8 {
    fn default() -> (machine: Self)
        ensures
            machine.mem@.wf(),
            machine.mem@.bytes == initial_bytes(),
            machine.mem@.stack == Seq::new(STACK_SIZE as nat, |i: int| 0u16),
            machine.mem@.sp == 0,
            machine.mem@.gfx == Seq::new(GRAPHICS_SIZE as nat, |i: int| 0u32),
            machine.cpu@ == (CpuView {
                regs: initial_regs(),
                index: 0u16,
                pc: 0x200u16,
                delay: 0u8,
            }),
    {
        Self::new()
    }
}


} // verus!
