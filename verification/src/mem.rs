//! The memory component: addressable byte store, call stack, framebuffer and
//! the built-in glyph table for hexadecimal digit sprites.
//!
//! Memory map:
//!   0x000 - 0x1FF   reserved interpreter region (holds the glyph table)
//!   0x200 - 0xFFF   program ROM and RAM, writable by a running program

use vstd::prelude::*;

verus! {

pub const MEMORY_SIZE: usize = 0x1000;
pub const STACK_SIZE: usize = 0x10;
pub const PROGRAM_MEMORY_START: usize = 0x200;
pub const GRAPHICS_WIDTH: usize = 64;
pub const GRAPHICS_HEIGHT: usize = 64;
pub const GRAPHICS_SIZE: usize = GRAPHICS_WIDTH * GRAPHICS_HEIGHT;
pub const DIGITS_MEMORY_START: usize = 0x1AF;
pub const DIGIT_SPRITE_LEN: usize = 5;

/// The 80-byte glyph table: 16 sprites of 5 bytes each, one per hexadecimal
/// digit 0-F, copied into the reserved region on construction.
pub open spec fn digit_sprites() -> Seq<u8> {
    seq![
        0xF0u8, 0x90, 0x90, 0x90, 0xF0, // 0
        0x20, 0x60, 0x20, 0x20, 0x70, // 1
        0xF0, 0x10, 0xF0, 0x80, 0xF0, // 2
        0xF0, 0x10, 0xF0, 0x10, 0xF0, // 3
        0x90, 0x90, 0xF0, 0x10, 0x10, // 4
        0xF0, 0x80, 0xF0, 0x10, 0xF0, // 5
        0xF0, 0x80, 0xF0, 0x90, 0xF0, // 6
        0xF0, 0x10, 0x20, 0x40, 0x40, // 7
        0xF0, 0x90, 0xF0, 0x90, 0xF0, // 8
        0xF0, 0x90, 0xF0, 0x10, 0xF0, // 9
        0xF0, 0x90, 0xF0, 0x90, 0x90, // A
        0xE0, 0x90, 0xE0, 0x90, 0xE0, // B
        0xF0, 0x80, 0x80, 0x80, 0xF0, // C
        0xE0, 0x90, 0x90, 0x90, 0xE0, // D
        0xF0, 0x80, 0xF0, 0x80, 0xF0, // E
        0xF0, 0x80, 0xF0, 0x80, 0x80, // F
    ]
}

/// The byte store right after construction: all zero except the glyph table.
pub open spec fn initial_bytes() -> Seq<u8> {
    Seq::new(MEMORY_SIZE as nat, |i: int|
        if DIGITS_MEMORY_START <= i < DIGITS_MEMORY_START + digit_sprites().len() {
            digit_sprites()[i - DIGITS_MEMORY_START]
        } else {
            0u8
        })
}

/// Two consecutive bytes read as one big-endian 16-bit opcode.
pub open spec fn opcode_at(bytes: Seq<u8>, i: int) -> u16 {
    (bytes[i] * 256 + bytes[i + 1]) as u16
}

/// The low byte of a packed framebuffer cell: 0 or 1 for cells the core
/// itself has written, the cell's on/off luminance.
pub open spec fn low_byte(v: u32) -> u8 {
    (v & 0xFF) as u8
}

/// Linear address of the framebuffer cell at column `x`, row `y`.
pub open spec fn gfx_index(x: int, y: int) -> int {
    x + 64 * y
}

/// Mathematical model of the memory component.
pub ghost struct MemView {
    /// The 4096 addressable bytes.
    pub bytes: Seq<u8>,
    /// The call stack slots.
    pub stack: Seq<u16>,
    /// The stack pointer; slot `sp` is the top of the stack.
    pub sp: nat,
    /// The packed framebuffer cells, row-major.
    pub gfx: Seq<u32>,
}

impl MemView {
    /// Well-formedness: sizes are fixed, the stack pointer stays inside the
    /// stack, and every stack slot holds an address into memory (so a return
    /// address plus the instruction width cannot overflow).
    pub open spec fn wf(self) -> bool {
        &&& self.bytes.len() == MEMORY_SIZE
        &&& self.stack.len() == STACK_SIZE
        &&& self.gfx.len() == GRAPHICS_SIZE
        &&& self.sp < STACK_SIZE
        &&& forall|i: int| 0 <= i < STACK_SIZE ==> self.stack[i] < MEMORY_SIZE
    }
}

pub struct Mem {
    memory: [u8; MEMORY_SIZE],
    stack: [u16; STACK_SIZE],
    pub graphics: [u32; GRAPHICS_SIZE],
    stack_pointer: usize,
}

impl View for Mem {
    type V = MemView;

    closed spec fn view(&self) -> MemView {
        MemView {
            bytes: self.memory@,
            stack: self.stack@,
            sp: self.stack_pointer as nat,
            gfx: self.graphics@,
        }
    }
}

impl Mem {
    /// The byte store, stack and framebuffer start zeroed; the glyph table is
    /// copied into its reserved offset.
    pub fn new() -> (mem: Mem)
        ensures
            mem@.wf(),
            mem@.bytes == initial_bytes(),
            mem@.stack == Seq::new(STACK_SIZE as nat, |i: int| 0u16),
            mem@.sp == 0,
            mem@.gfx == Seq::new(GRAPHICS_SIZE as nat, |i: int| 0u32),
    {
        let mut mem = Mem {
            memory: [0; MEMORY_SIZE],
            stack: [0; STACK_SIZE],
            graphics: [0; GRAPHICS_SIZE],
            stack_pointer: 0,
        };

        let table: [u8; 80] = [
            0xF0, 0x90, 0x90, 0x90, 0xF0, // 0
            0x20, 0x60, 0x20, 0x20, 0x70, // 1
            0xF0, 0x10, 0xF0, 0x80, 0xF0, // 2
            0xF0, 0x10, 0xF0, 0x10, 0xF0, // 3
            0x90, 0x90, 0xF0, 0x10, 0x10, // 4
            0xF0, 0x80, 0xF0, 0x10, 0xF0, // 5
            0xF0, 0x80, 0xF0, 0x90, 0xF0, // 6
            0xF0, 0x10, 0x20, 0x40, 0x40, // 7
            0xF0, 0x90, 0xF0, 0x90, 0xF0, // 8
            0xF0, 0x90, 0xF0, 0x10, 0xF0, // 9
            0xF0, 0x90, 0xF0, 0x90, 0x90, // A
            0xE0, 0x90, 0xE0, 0x90, 0xE0, // B
            0xF0, 0x80, 0x80, 0x80, 0xF0, // C
            0xE0, 0x90, 0x90, 0x90, 0xE0, // D
            0xF0, 0x80, 0xF0, 0x80, 0xF0, // E
            0xF0, 0x80, 0xF0, 0x80, 0x80, // F
        ];
        proof {
            assert(table@ =~= digit_sprites());
        }

        let mut i: usize = 0;
        while i < 80
            invariant
                i <= 80,
                table@ == digit_sprites(),
                forall|j: int| 0 <= j < i
                    ==> mem.memory@[DIGITS_MEMORY_START + j] == digit_sprites()[j],
                forall|j: int|
                    0 <= j < MEMORY_SIZE
                        && !(DIGITS_MEMORY_START <= j < DIGITS_MEMORY_START + i)
                    ==> mem.memory@[j] == 0,
                mem.stack@ == Seq::new(STACK_SIZE as nat, |k: int| 0u16),
                mem.graphics@ == Seq::new(GRAPHICS_SIZE as nat, |k: int| 0u32),
                mem.stack_pointer == 0,
            decreases 80 - i,
        {
            mem.memory[DIGITS_MEMORY_START + i] = table[i];
            i += 1;
        }
        proof {
            assert(mem.memory@ =~= initial_bytes());
        }
        mem
    }

    /// Copies the program into memory starting at 0x200.  Fails, changing
    /// nothing, when the program does not fit.
    pub fn load_program(&mut self, program: &[u8]) -> (result: Result<(), &'static str>)
        ensures
            result is Ok <==> PROGRAM_MEMORY_START + program@.len() <= MEMORY_SIZE,
            result is Ok ==> final(self)@ == (MemView {
                bytes: old(self)@.bytes.subrange(0, PROGRAM_MEMORY_START as int)
                    + program@
                    + old(self)@.bytes.subrange(
                        PROGRAM_MEMORY_START + program@.len(),
                        MEMORY_SIZE as int,
                    ),
                ..old(self)@
            }),
            result matches Err(msg) ==> final(self)@ == old(self)@
                && msg@ == "Program is too large to fit in memory"@,
    {
        if program.len() > MEMORY_SIZE - PROGRAM_MEMORY_START {
            return Err("Program is too large to fit in memory");
        }

        let mut i: usize = 0;
        while i < program.len()
            invariant
                i <= program@.len(),
                PROGRAM_MEMORY_START + program@.len() <= MEMORY_SIZE,
                forall|j: int| 0 <= j < i
                    ==> self@.bytes[PROGRAM_MEMORY_START + j] == program@[j],
                forall|j: int|
                    0 <= j < MEMORY_SIZE
                        && !(PROGRAM_MEMORY_START <= j < PROGRAM_MEMORY_START + i)
                    ==> self@.bytes[j] == old(self)@.bytes[j],
                self@.stack == old(self)@.stack,
                self@.sp == old(self)@.sp,
                self@.gfx == old(self)@.gfx,
            decreases program@.len() - i,
        {
            self.memory[PROGRAM_MEMORY_START + i] = program[i];
            i += 1;
        }
        proof {
            assert(self@.bytes =~= old(self)@.bytes.subrange(0, PROGRAM_MEMORY_START as int)
                + program@
                + old(self)@.bytes.subrange(
                    PROGRAM_MEMORY_START + program@.len(),
                    MEMORY_SIZE as int,
                ));
        }
        Ok(())
    }

    /// Reads two consecutive bytes as one big-endian 16-bit opcode.
    pub fn fetch_opcode(&self, index: usize) -> (opcode: u16)
        requires
            index + 1 < MEMORY_SIZE,
        ensures
            opcode == opcode_at(self@.bytes, index as int),
    {
        (self.memory[index] as u16) * 256 + (self.memory[index + 1] as u16)
    }

    /// Raw byte read, for indirect memory operations.
    pub fn fetch(&self, index: usize) -> (value: u8)
        requires
            index < MEMORY_SIZE,
        ensures
            value == self@.bytes[index as int],
    {
        self.memory[index]
    }

    /// Raw byte write.  Addresses below 0x200 would corrupt the reserved
    /// region; such a write is a fatal fault and is ruled out here, so the
    /// caller must reject it first.
    pub fn store(&mut self, index: usize, value: u8)
        requires
            PROGRAM_MEMORY_START <= index < MEMORY_SIZE,
        ensures
            final(self)@ == (MemView {
                bytes: old(self)@.bytes.update(index as int, value),
                ..old(self)@
            }),
    {
        self.memory[index] = value;
    }

    /// The on/off luminance byte of the framebuffer cell at `(x, y)`.
    /// No wraparound or clipping: out-of-range coordinates are a contract
    /// violation, kept out by the precondition.
    pub fn fetch_graphics(&self, x: usize, y: usize) -> (value: u8)
        requires
            x < GRAPHICS_WIDTH,
            y < GRAPHICS_HEIGHT,
        ensures
            value == low_byte(self@.gfx[gfx_index(x as int, y as int)]),
    {
        (self.graphics[x + y * GRAPHICS_WIDTH] & 0xFF) as u8
    }

    /// Stores an on/off value into the cell at `(x, y)`, packed with an
    /// opaque alpha byte so the host can hand the buffer to a display.
    pub fn store_graphics(&mut self, x: usize, y: usize, val: u8)
        requires
            x < GRAPHICS_WIDTH,
            y < GRAPHICS_HEIGHT,
        ensures
            final(self)@ == (MemView {
                gfx: old(self)@.gfx.update(
                    gfx_index(x as int, y as int),
                    val as u32 | 0xFF00,
                ),
                ..old(self)@
            }),
    {
        self.graphics[x + y * GRAPHICS_WIDTH] = val as u32 | 0xFF00;
    }

    /// Turns every framebuffer cell off.
    pub fn clear_graphics(&mut self)
        ensures
            final(self)@ == (MemView {
                gfx: Seq::new(GRAPHICS_SIZE as nat, |i: int| 0u32),
                ..old(self)@
            }),
    {
        let mut i: usize = 0;
        while i < GRAPHICS_SIZE
            invariant
                i <= GRAPHICS_SIZE,
                self@.gfx.len() == GRAPHICS_SIZE,
                forall|j: int| 0 <= j < i ==> self@.gfx[j] == 0u32,
                forall|j: int| i <= j < GRAPHICS_SIZE
                    ==> self@.gfx[j] == old(self)@.gfx[j],
                self@.bytes == old(self)@.bytes,
                self@.stack == old(self)@.stack,
                self@.sp == old(self)@.sp,
            decreases GRAPHICS_SIZE - i,
        {
            self.graphics[i] = 0;
            i += 1;
        }
        proof {
            assert(self@.gfx =~= Seq::new(GRAPHICS_SIZE as nat, |i: int| 0u32));
        }
    }

    /// Pushes a return address: the stack pointer is incremented first, then
    /// the address is stored at the new top.  Exceeding the capacity is a
    /// fatal fault, ruled out here.
    pub fn push(&mut self, addr: u16)
        requires
            old(self)@.wf(),
            old(self)@.sp + 1 < STACK_SIZE,
            addr < MEMORY_SIZE,
        ensures
            final(self)@.wf(),
            final(self)@ == (MemView {
                stack: old(self)@.stack.update((old(self)@.sp + 1) as int, addr),
                sp: old(self)@.sp + 1,
                ..old(self)@
            }),
    {
        self.stack_pointer += 1;
        self.stack[self.stack_pointer] = addr;
    }

    /// The current call-stack depth: how many return addresses are live.
    pub fn stack_depth(&self) -> (depth: usize)
        ensures
            depth == self@.sp,
    {
        self.stack_pointer
    }

    /// The address at the top of the stack, left in place.
    pub fn peek(&self) -> (addr: u16)
        requires
            self@.wf(),
        ensures
            addr == self@.stack[self@.sp as int],
    {
        self.stack[self.stack_pointer]
    }

    /// Pops the top address: it is read, then the stack pointer is
    /// decremented.  Popping past depth 0 is a fatal fault, ruled out here.
    pub fn pop(&mut self) -> (addr: u16)
        requires
            old(self)@.wf(),
            old(self)@.sp >= 1,
        ensures
            final(self)@.wf(),
            addr == old(self)@.stack[old(self)@.sp as int],
            addr < MEMORY_SIZE,
            final(self)@ == (MemView { sp: (old(self)@.sp - 1) as nat, ..old(self)@ }),
    {
        self.stack_pointer -= 1;
        self.stack[self.stack_pointer + 1]
    }

    /// The fixed memory address of the 5-byte sprite for a hexadecimal
    /// digit, `glyph_table_base + 5 * digit`.
    pub fn get_address_for_digit(&self, digit: u8) -> (addr: u16)
        ensures
            addr == DIGITS_MEMORY_START + DIGIT_SPRITE_LEN * digit,
    {
        (DIGITS_MEMORY_START + DIGIT_SPRITE_LEN * digit as usize) as u16
    }
}

/// Every memory value has its fixed sizes: the byte store, call stack and
/// framebuffer are fixed-capacity containers whose lengths never change.
pub proof fn lemma_mem_sizes(m: &Mem)
    ensures
        m@.bytes.len() == MEMORY_SIZE,
        m@.stack.len() == STACK_SIZE,
        m@.gfx.len() == GRAPHICS_SIZE,
{
}

impl Default for Mem {
    fn default() -> (mem: Self)
        ensures
            mem@.wf(),
            mem@.bytes == initial_bytes(),
            mem@.stack == Seq::new(STACK_SIZE as nat, |i: int| 0u16),
            mem@.sp == 0,
            mem@.gfx == Seq::new(GRAPHICS_SIZE as nat, |i: int| 0u32),
    {
        Self::new()
    }
}

} // verus!
