use chip8::system::System;

/// Builds a new system containing the specified ROM memory.
fn build_system(mem: Vec<u8>) -> System {
    let mut system = System::new();
    system.write_rom(mem);

    system
}

#[test]
fn test_00ee() {
    let mut system = build_system(vec![0x22, 0x04, 0x00, 0x00, 0x00, 0xEE]);

    system.tick();
    assert_eq!(system.stack[system.sp], 0x202);
    assert_eq!(system.pc, 0x204);
    system.tick();
    assert_eq!(system.pc, 0x202);
}

#[test]
fn test_1000() {
    let mut system = build_system(vec![0x12, 0x04]);

    system.tick();
    assert_eq!(system.pc, 0x204);
}

#[test]
fn test_2000() {
    let mut system = build_system(vec![0x22, 0x04]);

    system.tick();
    assert_eq!(system.sp, 1);
    assert_eq!(system.stack[system.sp], 0x202);
    assert_eq!(system.pc, 0x204);
}

#[test]
fn test_3000_skip() {
    let mut system = build_system(vec![0x30, 0x00]);

    system.tick();
    assert_eq!(system.pc, 0x204);
}

#[test]
fn test_3000_no_skip() {
    let mut system = build_system(vec![0x30, 0x01]);

    system.tick();
    assert_eq!(system.pc, 0x202);
}

#[test]
fn test_4000_skip() {
    let mut system = build_system(vec![0x40, 0x01]);

    system.tick();
    assert_eq!(system.pc, 0x204);
}

#[test]
fn test_4000_no_skip() {
    let mut system = build_system(vec![0x40, 0x00]);

    system.tick();
    assert_eq!(system.pc, 0x202);
}

#[test]
fn test_5000_skip() {
    let mut system = build_system(vec![0x50, 0x00]);

    system.tick();
    assert_eq!(system.pc, 0x204);
}

#[test]
fn test_5000_no_skip() {
    let mut system = build_system(vec![0x50, 0x10]);
    system.v[0x1] = 1;

    system.tick();
    assert_eq!(system.pc, 0x202);
}

#[test]
fn test_6000() {
    let mut system = build_system(vec![
        0x60, 0xF0, 0x61, 0xFF, 0x62, 0xF0, 0x63, 0xFF, 0x64, 0xF0, 0x65, 0xFF, 0x66, 0xF0, 0x67,
        0xFF, 0x68, 0xF0, 0x69, 0xFF, 0x6A, 0xF0, 0x6B, 0xFF, 0x6C, 0xF0, 0x6D, 0xFF, 0x6E, 0xF0,
        0x6F, 0xFF,
    ]);

    // Simulate all 16 opcodes to set registers
    for _ in 0..16 {
        system.tick();
    }

    // Check all 16 registers for alternating values (0xF0, 0xFF)
    for i in 0..8 {
        assert_eq!(system.v[i * 2], 0xF0);
        assert_eq!(system.v[(i * 2) + 1], 0xFF);
    }
}

#[test]
fn test_7000() {
    let mut system = build_system(vec![0x70, 0xFF, 0x71, 0x01]);
    system.v[0x1] = 0xFF;

    system.tick();
    assert_eq!(system.v[0x0], 0xFF);
    system.tick();
    assert_eq!(system.v[0x1], 0x00);
}
