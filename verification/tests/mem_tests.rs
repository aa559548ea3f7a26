use chip8_core::mem::Mem;

#[test]
fn test_load_program() {
    let program: [u8; 4] = [1, 2, 3, 4];
    let mut mem = Mem::new();

    mem.load_program(&program).unwrap();
    assert_eq!(1, mem.fetch(0x200));
    assert_eq!(2, mem.fetch(0x200 + 1));
    assert_eq!(3, mem.fetch(0x200 + 2));
    assert_eq!(4, mem.fetch(0x200 + 3));
}

#[test]
fn test_stack() {
    let mut mem = Mem::new();

    mem.push(1);
    assert_eq!(1, mem.peek());
    let val = mem.pop();
    assert_eq!(1, val);
}

#[test]
fn test_fetch_digit_address() {
    let mem = Mem::new();

    assert_eq!(0x1AF, mem.get_address_for_digit(0));

    assert_eq!(0x1AF + 5, mem.get_address_for_digit(1));
}

#[test]
fn test_store_and_fetch() {
    let mut mem = Mem::new();

    mem.store(0x200, 0xFF);
    assert_eq!(0xFF, mem.fetch(0x200));
}

#[test]
fn test_fetch_graphics() {
    let mut mem = Mem::new();
    mem.graphics[67] = 255;

    assert_eq!(255, mem.fetch_graphics(3, 1));
}
