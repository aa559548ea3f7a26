use chip8_core::chip8::Chip8;
use chip8_core::cpu::Cpu;
use chip8_core::instr::Fault;
use chip8_core::mem::Mem;

#[test]
fn test_pc_advances_by_two_on_load_immediate() {
    let mut cpu = Cpu::new();
    let mut mem = Mem::new();
    let keypad: [bool; 16] = [false; 16];

    mem.load_program(&[0x60, 0x01]).unwrap();
    cpu.execute_cycle(&mut mem, &keypad).unwrap();

    assert_eq!(0x202, cpu.program_counter());
}

#[test]
fn test_skip_equal_immediate_pc_policy() {
    // register 0 holds 0: comparing against immediate 0 skips (+4),
    // against immediate 1 does not (+2)
    let mut cpu = Cpu::new();
    let mut mem = Mem::new();
    let keypad: [bool; 16] = [false; 16];
    mem.load_program(&[0x30, 0x00]).unwrap();
    cpu.execute_cycle(&mut mem, &keypad).unwrap();
    assert_eq!(0x204, cpu.program_counter());

    let mut cpu = Cpu::new();
    let mut mem = Mem::new();
    mem.load_program(&[0x30, 0x01]).unwrap();
    cpu.execute_cycle(&mut mem, &keypad).unwrap();
    assert_eq!(0x202, cpu.program_counter());
}

#[test]
fn test_index_set_twice() {
    let mut cpu = Cpu::new();
    let mut mem = Mem::new();
    let keypad: [bool; 16] = [false; 16];

    mem.load_program(&[0xA0, 0xFF, 0xA2, 0xFF]).unwrap();
    cpu.execute_cycle(&mut mem, &keypad).unwrap();
    assert_eq!(0x0FF, cpu.index());

    cpu.execute_cycle(&mut mem, &keypad).unwrap();
    assert_eq!(0x2FF, cpu.index());
}

#[test]
fn test_draw_sprite_twice_collision() {
    // index := 0x206 (the byte 0x80: one pixel, leftmost column);
    // draw it twice at (0, 0): the pixel toggles on then back off, and the
    // second draw reports the collision in the flag register
    let mut machine = Chip8::new();
    let keypad: [bool; 16] = [false; 16];

    machine
        .load_program(&[0xA2, 0x06, 0xD0, 0x11, 0xD0, 0x11, 0x80, 0x00])
        .unwrap();

    machine.run_cycle(&keypad).unwrap();
    assert_eq!(0x206, machine.cpu.index());

    machine.run_cycle(&keypad).unwrap();
    assert_eq!(1, machine.mem.fetch_graphics(0, 0));
    assert_eq!(0, machine.cpu.register(15));

    machine.run_cycle(&keypad).unwrap();
    assert_eq!(0, machine.mem.fetch_graphics(0, 0));
    assert_eq!(1, machine.cpu.register(15));
}

#[test]
fn test_draw_wraps_at_edges() {
    // drawing the row 0xF0 with its origin at column 62 wraps the last two
    // pixels around to columns 0 and 1
    let mut cpu = Cpu::new();
    let mut mem = Mem::new();
    let keypad: [bool; 16] = [false; 16];

    cpu.set_register_value(0, 62);
    cpu.set_register_value(1, 0);
    mem.load_program(&[0xD0, 0x11, 0xF0, 0x00]).unwrap();
    cpu.set_index(0x202);

    cpu.execute_cycle(&mut mem, &keypad).unwrap();

    assert_eq!(1, mem.fetch_graphics(62, 0));
    assert_eq!(1, mem.fetch_graphics(63, 0));
    assert_eq!(1, mem.fetch_graphics(0, 0));
    assert_eq!(1, mem.fetch_graphics(1, 0));
    assert_eq!(0, mem.fetch_graphics(2, 0));
}

#[test]
fn test_unrecognized_opcode_faults() {
    let mut cpu = Cpu::new();
    let mut mem = Mem::new();
    let keypad: [bool; 16] = [false; 16];

    mem.load_program(&[0x00, 0x01]).unwrap();
    assert_eq!(
        Err(Fault::UnrecognizedOpcode),
        cpu.execute_cycle(&mut mem, &keypad)
    );
    assert_eq!(0x200, cpu.program_counter());
}

#[test]
fn test_unrecognized_sub_opcode_faults() {
    // the sound-timer slot FX18 is not part of this core
    let mut cpu = Cpu::new();
    let mut mem = Mem::new();
    let keypad: [bool; 16] = [false; 16];

    mem.load_program(&[0xF0, 0x18]).unwrap();
    assert_eq!(
        Err(Fault::UnrecognizedOpcode),
        cpu.execute_cycle(&mut mem, &keypad)
    );
    assert_eq!(0x200, cpu.program_counter());
}

#[test]
fn test_bcd_write_below_program_memory_faults() {
    // the index register still points at 0, inside the reserved region
    let mut cpu = Cpu::new();
    let mut mem = Mem::new();
    let keypad: [bool; 16] = [false; 16];

    mem.load_program(&[0xF0, 0x33]).unwrap();
    assert_eq!(
        Err(Fault::MemoryFault),
        cpu.execute_cycle(&mut mem, &keypad)
    );
    assert_eq!(0x200, cpu.program_counter());
}

#[test]
fn test_draw_source_out_of_memory_faults() {
    let mut cpu = Cpu::new();
    let mut mem = Mem::new();
    let keypad: [bool; 16] = [false; 16];

    mem.load_program(&[0xD0, 0x12]).unwrap();
    cpu.set_index(0xFFF);
    assert_eq!(
        Err(Fault::MemoryFault),
        cpu.execute_cycle(&mut mem, &keypad)
    );
    assert_eq!(0x200, cpu.program_counter());
}

#[test]
fn test_store_registers_out_of_memory_faults() {
    let mut cpu = Cpu::new();
    let mut mem = Mem::new();
    let keypad: [bool; 16] = [false; 16];

    mem.load_program(&[0xF8, 0x55]).unwrap();
    cpu.set_index(0xFFC);
    assert_eq!(
        Err(Fault::MemoryFault),
        cpu.execute_cycle(&mut mem, &keypad)
    );
    assert_eq!(0xFFC, cpu.index());
}

#[test]
fn test_return_without_call_faults() {
    let mut cpu = Cpu::new();
    let mut mem = Mem::new();
    let keypad: [bool; 16] = [false; 16];

    mem.load_program(&[0x00, 0xEE]).unwrap();
    assert_eq!(
        Err(Fault::StackUnderflow),
        cpu.execute_cycle(&mut mem, &keypad)
    );
    assert_eq!(0x200, cpu.program_counter());
}

#[test]
fn test_call_depth_overflow_faults() {
    // a program that calls its own address: each cycle pushes one more
    // return address until the stack capacity is exceeded
    let mut cpu = Cpu::new();
    let mut mem = Mem::new();
    let keypad: [bool; 16] = [false; 16];

    mem.load_program(&[0x22, 0x00]).unwrap();
    for _ in 0..15 {
        cpu.execute_cycle(&mut mem, &keypad).unwrap();
    }
    assert_eq!(
        Err(Fault::StackOverflow),
        cpu.execute_cycle(&mut mem, &keypad)
    );
}

#[test]
fn test_key_index_out_of_range_faults() {
    let mut cpu = Cpu::new();
    let mut mem = Mem::new();
    let keypad: [bool; 16] = [false; 16];

    cpu.set_register_value(0, 0xFF);
    mem.load_program(&[0xE0, 0x9E]).unwrap();
    assert_eq!(
        Err(Fault::KeyOutOfRange),
        cpu.execute_cycle(&mut mem, &keypad)
    );
    assert_eq!(0x200, cpu.program_counter());
}

#[test]
fn test_load_program_too_large() {
    let mut mem = Mem::new();

    let too_large = vec![0u8; 0xE01];
    let result = mem.load_program(&too_large);
    assert_eq!(Err("Program is too large to fit in memory"), result);

    let just_fits = vec![0u8; 0xE00];
    assert!(mem.load_program(&just_fits).is_ok());
}

#[test]
fn test_add_immediate_wraps_without_flag() {
    let mut cpu = Cpu::new();
    let mut mem = Mem::new();
    let keypad: [bool; 16] = [false; 16];

    cpu.set_register_value(0, 0xFF);
    mem.load_program(&[0x70, 0x02]).unwrap();
    cpu.execute_cycle(&mut mem, &keypad).unwrap();

    assert_eq!(0x01, cpu.register(0));
    assert_eq!(0x00, cpu.register(15));
}

#[test]
fn test_add_index_wraps() {
    let mut cpu = Cpu::new();
    let mut mem = Mem::new();
    let keypad: [bool; 16] = [false; 16];

    cpu.set_register_value(2, 0x02);
    mem.load_program(&[0xF2, 0x1E]).unwrap();
    cpu.set_index(0xFFFF);
    cpu.execute_cycle(&mut mem, &keypad).unwrap();

    assert_eq!(0x0001, cpu.index());
}

#[test]
fn test_glyph_table_contents() {
    let mem = Mem::new();

    // first byte of the sprite for 0, first byte of the sprite for 1, and
    // the very last byte of the sprite for F
    assert_eq!(0xF0, mem.fetch(0x1AF));
    assert_eq!(0x20, mem.fetch(0x1AF + 5));
    assert_eq!(0x80, mem.fetch(0x1AF + 79));
}

#[test]
fn test_fetch_opcode_big_endian() {
    let mut mem = Mem::new();

    mem.store(0x200, 0xAB);
    mem.store(0x201, 0xCD);
    assert_eq!(0xABCD, mem.fetch_opcode(0x200));
}

#[test]
fn test_clear_screen_instruction() {
    let mut cpu = Cpu::new();
    let mut mem = Mem::new();
    let keypad: [bool; 16] = [false; 16];

    mem.store_graphics(5, 7, 1);
    mem.load_program(&[0x00, 0xE0]).unwrap();
    cpu.execute_cycle(&mut mem, &keypad).unwrap();

    assert_eq!(0, mem.fetch_graphics(5, 7));
    assert_eq!(0x202, cpu.program_counter());
}

#[test]
fn test_call_and_return_round_trip() {
    let mut cpu = Cpu::new();
    let mut mem = Mem::new();
    let keypad: [bool; 16] = [false; 16];

    mem.load_program(&[0x22, 0x04, 0x00, 0x00, 0x00, 0xEE]).unwrap();
    cpu.execute_cycle(&mut mem, &keypad).unwrap();
    assert_eq!(0x204, cpu.program_counter());

    cpu.execute_cycle(&mut mem, &keypad).unwrap();
    assert_eq!(0x202, cpu.program_counter());
}

#[test]
fn test_wait_key_takes_lowest_pressed() {
    let mut cpu = Cpu::new();
    let mut mem = Mem::new();
    let mut keypad: [bool; 16] = [false; 16];
    keypad[7] = true;
    keypad[3] = true;

    mem.load_program(&[0xF0, 0x0A]).unwrap();
    cpu.execute_cycle(&mut mem, &keypad).unwrap();

    assert_eq!(3, cpu.register(0));
    assert_eq!(0x202, cpu.program_counter());
}

#[test]
fn test_chip8_facade_runs_program() {
    let mut machine = Chip8::new();
    let keypad: [bool; 16] = [false; 16];

    machine.load_program(&[0x60, 0x2A]).unwrap();
    machine.run_cycle(&keypad).unwrap();

    assert_eq!(42, machine.cpu.register(0));
    assert_eq!(0x202, machine.cpu.program_counter());
}
