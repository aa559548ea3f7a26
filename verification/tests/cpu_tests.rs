use chip8_core::cpu::Cpu;
use chip8_core::mem::Mem;

#[test]
fn test_increase_program_counter() {
    let mut cpu = Cpu::new();
    let current_pc = cpu.program_counter();

    cpu.increase_program_counter(1);
    assert_eq!(current_pc + 1, cpu.program_counter());
}

#[test]
fn test_execute_cycle_0xa0ff() {
    let mut cpu = Cpu::new();
    let mut mem = Mem::new();
    let keypad: [bool; 16] = [false; 16];

    mem.load_program(&[0xA0, 0xFF]).unwrap();
    cpu.execute_cycle(&mut mem, &keypad).unwrap();

    assert_eq!(0x00FF, cpu.index());
}

#[test]
fn test_execute_cycle_0x2xxx() {
    let mut cpu = Cpu::new();
    let mut mem = Mem::new();
    let keypad: [bool; 16] = [false; 16];

    mem.load_program(&[0x20, 0x01]).unwrap();
    cpu.execute_cycle(&mut mem, &keypad).unwrap();

    assert_eq!(0x0001, cpu.program_counter());
}

#[test]
fn test_execute_cycle_0x3xxx_equal() {
    let mut cpu = Cpu::new();
    let mut mem = Mem::new();
    let keypad: [bool; 16] = [false; 16];

    mem.load_program(&[0x30, 0x00]).unwrap();

    cpu.execute_cycle(&mut mem, &keypad).unwrap();

    assert_eq!(0x204, cpu.program_counter());
}

#[test]
fn test_execute_cycle_0x3xxx_not_equal() {
    let mut cpu = Cpu::new();
    let mut mem = Mem::new();
    let keypad: [bool; 16] = [false; 16];

    mem.load_program(&[0x30, 0x01]).unwrap();

    cpu.execute_cycle(&mut mem, &keypad).unwrap();

    assert_eq!(0x202, cpu.program_counter());
}

#[test]
fn test_execute_cycle_0x4xxx_equal() {
    let mut cpu = Cpu::new();
    let mut mem = Mem::new();
    let keypad: [bool; 16] = [false; 16];

    mem.load_program(&[0x40, 0x00]).unwrap();

    cpu.execute_cycle(&mut mem, &keypad).unwrap();

    assert_eq!(0x202, cpu.program_counter());
}

#[test]
fn test_execute_cycle_0x4xxx_not_equal() {
    let mut cpu = Cpu::new();
    let mut mem = Mem::new();
    let keypad: [bool; 16] = [false; 16];

    mem.load_program(&[0x40, 0x01]).unwrap();

    cpu.execute_cycle(&mut mem, &keypad).unwrap();

    assert_eq!(0x204, cpu.program_counter());
}

#[test]
fn test_execute_cycle_0x5xxx_equal() {
    let mut cpu = Cpu::new();
    let mut mem = Mem::new();
    let keypad: [bool; 16] = [false; 16];

    mem.load_program(&[0x51, 0x20]).unwrap();
    cpu.set_register_value(1, 0x01);
    cpu.set_register_value(2, 0x01);

    cpu.execute_cycle(&mut mem, &keypad).unwrap();

    assert_eq!(0x204, cpu.program_counter());
}

#[test]
fn test_execute_cycle_0x5xxx_not_equal() {
    let mut cpu = Cpu::new();
    let mut mem = Mem::new();
    let keypad: [bool; 16] = [false; 16];

    mem.load_program(&[0x51, 0x20]).unwrap();
    cpu.set_register_value(1, 0x01);
    cpu.set_register_value(2, 0x02);

    cpu.execute_cycle(&mut mem, &keypad).unwrap();

    assert_eq!(0x202, cpu.program_counter());
}

#[test]
fn test_execute_cycle_0x6xxx() {
    let mut cpu = Cpu::new();
    let mut mem = Mem::new();
    let keypad: [bool; 16] = [false; 16];

    mem.load_program(&[0x61, 0x01]).unwrap();

    cpu.execute_cycle(&mut mem, &keypad).unwrap();

    assert_eq!(0x01, cpu.register(1));
}

#[test]
fn test_execute_cycle_0x7xxx() {
    let mut cpu = Cpu::new();
    let mut mem = Mem::new();
    let keypad: [bool; 16] = [false; 16];

    cpu.set_register_value(1, 0x10);

    mem.load_program(&[0x71, 0x01]).unwrap();

    cpu.execute_cycle(&mut mem, &keypad).unwrap();

    assert_eq!(0x11, cpu.register(1));
}

#[test]
fn test_execute_cycle_0x8000() {
    let mut cpu = Cpu::new();
    let mut mem = Mem::new();
    let keypad: [bool; 16] = [false; 16];

    cpu.set_register_value(2, 0x10);

    mem.load_program(&[0x81, 0x20]).unwrap();

    cpu.execute_cycle(&mut mem, &keypad).unwrap();

    assert_eq!(0x10, cpu.register(1));
}

#[test]
fn test_execute_cycle_0x8001() {
    let mut cpu = Cpu::new();
    let mut mem = Mem::new();
    let keypad: [bool; 16] = [false; 16];

    cpu.set_register_value(1, 0x01);
    cpu.set_register_value(2, 0x10);
    mem.load_program(&[0x81, 0x21]).unwrap();

    cpu.execute_cycle(&mut mem, &keypad).unwrap();
    assert_eq!(0x11, cpu.register(1));
}

#[test]
fn test_execute_cycle_0x8002() {
    let mut cpu = Cpu::new();
    let mut mem = Mem::new();
    let keypad: [bool; 16] = [false; 16];

    cpu.set_register_value(1, 0x01);
    cpu.set_register_value(2, 0x10);
    mem.load_program(&[0x81, 0x22]).unwrap();

    cpu.execute_cycle(&mut mem, &keypad).unwrap();
    assert_eq!(0x00, cpu.register(1));
}

#[test]
fn test_execute_cycle_0x8003() {
    let mut cpu = Cpu::new();
    let mut mem = Mem::new();
    let keypad: [bool; 16] = [false; 16];

    cpu.set_register_value(1, 0x01);
    cpu.set_register_value(2, 0x11);
    mem.load_program(&[0x81, 0x23]).unwrap();

    cpu.execute_cycle(&mut mem, &keypad).unwrap();
    assert_eq!(0x10, cpu.register(1));
}

#[test]
fn test_execute_cycle_0x8004_overflow() {
    let mut cpu = Cpu::new();
    let mut mem = Mem::new();
    let keypad: [bool; 16] = [false; 16];

    cpu.set_register_value(1, 0xFF);
    cpu.set_register_value(2, 0xFF);
    mem.load_program(&[0x81, 0x24]).unwrap();

    cpu.execute_cycle(&mut mem, &keypad).unwrap();
    assert_eq!(0xFE, cpu.register(1));
    assert_eq!(0x01, cpu.register(15));
}

#[test]
fn test_execute_cycle_0x8004_no_overflow() {
    let mut cpu = Cpu::new();
    let mut mem = Mem::new();
    let keypad: [bool; 16] = [false; 16];

    cpu.set_register_value(1, 0x01);
    cpu.set_register_value(2, 0x01);
    mem.load_program(&[0x81, 0x24]).unwrap();

    cpu.execute_cycle(&mut mem, &keypad).unwrap();
    assert_eq!(0x02, cpu.register(1));
    assert_eq!(0x00, cpu.register(15));
}

#[test]
fn test_execute_cycle_0x8005_borrow() {
    let mut cpu = Cpu::new();
    let mut mem = Mem::new();
    let keypad: [bool; 16] = [false; 16];

    cpu.set_register_value(1, 0x00);
    cpu.set_register_value(2, 0xFF);
    mem.load_program(&[0x81, 0x25]).unwrap();

    cpu.execute_cycle(&mut mem, &keypad).unwrap();
    assert_eq!(0x01, cpu.register(1));
    assert_eq!(0x01, cpu.register(15));
}

#[test]
fn test_execute_cycle_0x8005_no_borrow() {
    let mut cpu = Cpu::new();
    let mut mem = Mem::new();
    let keypad: [bool; 16] = [false; 16];

    cpu.set_register_value(1, 0xFF);
    cpu.set_register_value(2, 0x01);
    mem.load_program(&[0x81, 0x25]).unwrap();

    cpu.execute_cycle(&mut mem, &keypad).unwrap();
    assert_eq!(0xFE, cpu.register(1));
    assert_eq!(0x00, cpu.register(15));
}

#[test]
fn test_execute_cycle_0x8006_lsb_0() {
    let mut cpu = Cpu::new();
    let mut mem = Mem::new();
    let keypad: [bool; 16] = [false; 16];

    cpu.set_register_value(1, 0xF0);
    mem.load_program(&[0x81, 0x06]).unwrap();

    cpu.execute_cycle(&mut mem, &keypad).unwrap();
    assert_eq!(0x78, cpu.register(1));
    assert_eq!(0x00, cpu.register(15));
}

#[test]
fn test_execute_cycle_0x8006_lsb_1() {
    let mut cpu = Cpu::new();
    let mut mem = Mem::new();
    let keypad: [bool; 16] = [false; 16];

    cpu.set_register_value(1, 0xF1);
    mem.load_program(&[0x81, 0x06]).unwrap();

    cpu.execute_cycle(&mut mem, &keypad).unwrap();
    assert_eq!(0x78, cpu.register(1));
    assert_eq!(0x01, cpu.register(15));
}

#[test]
fn test_execute_cycle_0x8007_borrow() {
    let mut cpu = Cpu::new();
    let mut mem = Mem::new();
    let keypad: [bool; 16] = [false; 16];

    cpu.set_register_value(1, 0xFF);
    cpu.set_register_value(2, 0x00);
    mem.load_program(&[0x81, 0x27]).unwrap();

    cpu.execute_cycle(&mut mem, &keypad).unwrap();
    assert_eq!(0x01, cpu.register(1));
    assert_eq!(0x01, cpu.register(15));
}

#[test]
fn test_execute_cycle_0x8007_no_borrow() {
    let mut cpu = Cpu::new();
    let mut mem = Mem::new();
    let keypad: [bool; 16] = [false; 16];

    cpu.set_register_value(1, 0x00);
    cpu.set_register_value(2, 0xFF);
    mem.load_program(&[0x81, 0x27]).unwrap();

    cpu.execute_cycle(&mut mem, &keypad).unwrap();
    assert_eq!(0xFF, cpu.register(1));
    assert_eq!(0x00, cpu.register(15));
}

#[test]
fn test_execute_cycle_0x800e_msb_0() {
    let mut cpu = Cpu::new();
    let mut mem = Mem::new();
    let keypad: [bool; 16] = [false; 16];

    cpu.set_register_value(1, 0x70);
    mem.load_program(&[0x81, 0x0E]).unwrap();

    cpu.execute_cycle(&mut mem, &keypad).unwrap();
    assert_eq!(0xE0, cpu.register(1));
    assert_eq!(0x00, cpu.register(15));
}

#[test]
fn test_execute_cycle_0x800e_msb_1() {
    let mut cpu = Cpu::new();
    let mut mem = Mem::new();
    let keypad: [bool; 16] = [false; 16];

    cpu.set_register_value(1, 0xFF);
    mem.load_program(&[0x81, 0x0E]).unwrap();

    cpu.execute_cycle(&mut mem, &keypad).unwrap();
    assert_eq!(0xFE, cpu.register(1));
    assert_eq!(0x01, cpu.register(15));
}

#[test]
fn test_execute_cycle_0x9000_equal() {
    let mut cpu = Cpu::new();
    let mut mem = Mem::new();
    let keypad: [bool; 16] = [false; 16];

    cpu.set_register_value(1, 0xFF);
    cpu.set_register_value(2, 0xFF);
    mem.load_program(&[0x91, 0x20]).unwrap();
    cpu.execute_cycle(&mut mem, &keypad).unwrap();

    assert_eq!(0x202, cpu.program_counter());
}

#[test]
fn test_execute_cycle_0x9000_not_equal() {
    let mut cpu = Cpu::new();
    let mut mem = Mem::new();
    let keypad: [bool; 16] = [false; 16];

    cpu.set_register_value(1, 0x01);
    cpu.set_register_value(2, 0xFF);
    mem.load_program(&[0x91, 0x20]).unwrap();
    cpu.execute_cycle(&mut mem, &keypad).unwrap();

    assert_eq!(0x204, cpu.program_counter());
}

#[test]
fn test_execute_cycle_0xa000() {
    let mut cpu = Cpu::new();
    let mut mem = Mem::new();
    let keypad: [bool; 16] = [false; 16];

    mem.load_program(&[0xAF, 0xFF, 0xA2, 0xFF]).unwrap();
    cpu.execute_cycle(&mut mem, &keypad).unwrap();

    assert_eq!(0xFFF, cpu.index());
    cpu.execute_cycle(&mut mem, &keypad).unwrap();
    assert_eq!(0x2FF, cpu.index());
}

#[test]
fn test_execute_cycle_0xb000() {
    let mut cpu = Cpu::new();
    let mut mem = Mem::new();
    let keypad: [bool; 16] = [false; 16];

    cpu.set_register_value(0, 0xFF);
    cpu.set_register_value(2, 0xFF);
    mem.load_program(&[0xB0, 0x00]).unwrap();
    cpu.execute_cycle(&mut mem, &keypad).unwrap();

    assert_eq!(0xFF, cpu.program_counter());
}

#[test]
fn test_execute_cycle_0xc000() {
    let mut cpu = Cpu::new();
    let mut mem = Mem::new();
    let keypad: [bool; 16] = [false; 16];

    cpu.set_register_value(1, 0xFF);
    cpu.set_register_value(2, 0xFF);
    mem.load_program(&[0xC1, 0x00]).unwrap();
    cpu.execute_cycle(&mut mem, &keypad).unwrap();

    assert_eq!(0x00, cpu.register(0));
}

#[test]
fn test_execute_cycle_0xe000_pressed() {
    let mut cpu = Cpu::new();
    let mut mem = Mem::new();
    let mut keypad: [bool; 16] = [false; 16];

    keypad[0xE] = true;
    cpu.set_register_value(0xE, 0xE);

    mem.load_program(&[0xEE, 0x9E]).unwrap();
    cpu.execute_cycle(&mut mem, &keypad).unwrap();

    assert_eq!(0x204, cpu.program_counter());
}

#[test]
fn test_execute_cycle_0xe000_not_pressed() {
    let mut cpu = Cpu::new();
    let mut mem = Mem::new();
    let mut keypad: [bool; 16] = [true; 16];

    keypad[0xE] = false;

    cpu.set_register_value(0xE, 0xE);

    mem.load_program(&[0xEE, 0xA1]).unwrap();
    cpu.execute_cycle(&mut mem, &keypad).unwrap();

    assert_eq!(0x204, cpu.program_counter());
}

#[test]
fn test_execute_cycle_0xfx07_set_delay() {
    let mut cpu = Cpu::new();
    let mut mem = Mem::new();
    let keypad: [bool; 16] = [true; 16];

    cpu.set_delay_timer(0xFF);
    mem.load_program(&[0xF2, 0x07]).unwrap();
    cpu.execute_cycle(&mut mem, &keypad).unwrap();

    assert_eq!(0xFF, cpu.register(2));
}

#[test]
fn test_execute_cycle_0xfx0a_wait_for_key() {
    let mut cpu = Cpu::new();
    let mut mem = Mem::new();
    let mut keypad: [bool; 16] = [false; 16];
    mem.load_program(&[0xF2, 0x0A]).unwrap();

    cpu.execute_cycle(&mut mem, &keypad).unwrap();
    assert_eq!(0x200, cpu.program_counter());

    cpu.execute_cycle(&mut mem, &keypad).unwrap();
    assert_eq!(0x200, cpu.program_counter());

    cpu.execute_cycle(&mut mem, &keypad).unwrap();
    assert_eq!(0x200, cpu.program_counter());

    keypad[0xF] = true;

    cpu.execute_cycle(&mut mem, &keypad).unwrap();
    assert_eq!(0x202, cpu.program_counter());
    assert_eq!(0xF, cpu.register(2));
}

#[test]
fn test_execute_cycle_0xfx15_set_delay_to_register() {
    let mut cpu = Cpu::new();
    let mut mem = Mem::new();
    let keypad: [bool; 16] = [true; 16];

    cpu.set_register_value(2, 0xFF);
    mem.load_program(&[0xF2, 0x15]).unwrap();
    cpu.execute_cycle(&mut mem, &keypad).unwrap();

    assert_eq!(0xFF, cpu.delay_timer());
}

#[test]
fn test_execute_cycle_0xfx1e() {
    let mut cpu = Cpu::new();
    let mut mem = Mem::new();
    let keypad: [bool; 16] = [true; 16];

    cpu.set_register_value(2, 0xFF);
    mem.load_program(&[0xF2, 0x1E, 0xF2, 0x1E]).unwrap();
    cpu.execute_cycle(&mut mem, &keypad).unwrap();

    assert_eq!(0xFF, cpu.index());

    cpu.execute_cycle(&mut mem, &keypad).unwrap();

    assert_eq!(0xFF + 0xFF, cpu.index());
}

#[test]
fn test_execute_cycle_0xfx29() {
    let mut cpu = Cpu::new();
    let mut mem = Mem::new();
    let keypad: [bool; 16] = [true; 16];

    cpu.set_register_value(2, 0x0);
    mem.load_program(&[0xF2, 0x29]).unwrap();
    cpu.execute_cycle(&mut mem, &keypad).unwrap();

    assert_eq!(cpu.index(), 0x1AF)
}

#[test]
fn test_execute_cycle_0xfx33() {
    let mut cpu = Cpu::new();
    let mut mem = Mem::new();
    let keypad: [bool; 16] = [true; 16];

    cpu.set_register_value(2, 0xFF);
    cpu.set_index(0x200);
    mem.load_program(&[0xF2, 0x33]).unwrap();
    cpu.execute_cycle(&mut mem, &keypad).unwrap();

    assert_eq!(2, mem.fetch(0x200));
    assert_eq!(5, mem.fetch(0x201));
    assert_eq!(5, mem.fetch(0x202));
}

#[test]
fn test_execute_cycle_0xfx55() {
    let mut cpu = Cpu::new();
    let mut mem = Mem::new();
    let keypad: [bool; 16] = [true; 16];

    cpu.set_register_value(0, 0x00);
    cpu.set_register_value(1, 0x01);
    cpu.set_register_value(2, 0x02);
    cpu.set_register_value(3, 0x03);
    cpu.set_register_value(4, 0x04);
    cpu.set_register_value(5, 0x05);
    cpu.set_register_value(6, 0x06);
    cpu.set_register_value(7, 0x07);
    cpu.set_register_value(8, 0x08);

    cpu.set_index(0x204);
    mem.load_program(&[0xF8, 0x55]).unwrap();
    cpu.execute_cycle(&mut mem, &keypad).unwrap();

    assert_eq!(0, mem.fetch(0x204));
    assert_eq!(1, mem.fetch(0x205));
    assert_eq!(2, mem.fetch(0x206));
    assert_eq!(3, mem.fetch(0x207));
    assert_eq!(4, mem.fetch(0x208));
    assert_eq!(5, mem.fetch(0x209));
    assert_eq!(6, mem.fetch(0x20A));
    assert_eq!(7, mem.fetch(0x20B));
    assert_eq!(8, mem.fetch(0x20C));
    assert_eq!(0x20D, cpu.index());
}

#[test]
fn test_execute_cycle_0xfx65() {
    let mut cpu = Cpu::new();
    let mut mem = Mem::new();
    let keypad: [bool; 16] = [true; 16];

    mem.store(0x300, 0);
    mem.store(0x301, 1);
    mem.store(0x302, 2);
    mem.store(0x303, 3);
    mem.store(0x304, 4);
    mem.store(0x305, 5);
    mem.store(0x306, 6);
    mem.store(0x307, 7);
    mem.store(0x308, 8);

    cpu.set_index(0x300);
    mem.load_program(&[0xF8, 0x65]).unwrap();
    cpu.execute_cycle(&mut mem, &keypad).unwrap();

    assert_eq!(0, cpu.register(0));
    assert_eq!(1, cpu.register(1));
    assert_eq!(2, cpu.register(2));
    assert_eq!(3, cpu.register(3));
    assert_eq!(4, cpu.register(4));
    assert_eq!(5, cpu.register(5));
    assert_eq!(6, cpu.register(6));
    assert_eq!(7, cpu.register(7));
    assert_eq!(8, cpu.register(8));
}
