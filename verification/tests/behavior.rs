use chip8::ops::{get_op_code, split_op};
use chip8::system::{get_op_group, System};

fn load(rom: Vec<u8>) -> System {
    let mut system = System::new();
    system.write_rom(rom);
    system
}

#[test]
fn test_new_machine_layout() {
    let system = System::new();
    assert_eq!(system.pc, 0x200);
    assert_eq!(system.sp, 0);
    assert_eq!(system.i, 0);
    // Font glyphs occupy the first 80 bytes, zero beyond.
    assert_eq!(system.mem[0], 0xF0);
    assert_eq!(system.mem[5], 0x20);
    assert_eq!(system.mem[79], 0x80);
    assert_eq!(system.mem[80], 0x00);
    let fb = system.get_framebuffer();
    assert_eq!(fb.len(), 64 * 32 * 4);
    assert!(fb.iter().all(|&b| b == 0));
}

#[test]
fn test_write_rom_fills_to_end() {
    let mut system = System::new();
    system.write_rom(vec![0xAB; 4096 - 0x200]);
    assert_eq!(system.mem[0x200], 0xAB);
    assert_eq!(system.mem[4095], 0xAB);
    assert_eq!(system.mem[0x1FF], 0x00);
}

#[test]
fn test_decode_helpers() {
    assert_eq!(get_op_code(0xABCD), 0xA);
    assert_eq!(get_op_group(0xABCD), 0xA);
    assert_eq!(split_op(0xABCD), (0xAB, 0xCD));
    assert_eq!(chip8::system::split_op(0x00EE), (0x00, 0xEE));
}

#[test]
fn test_add_with_carry_wraps_to_144() {
    // Register holds 200; adding it to itself gives 144 and carry 1.
    let mut system = load(vec![0x60, 0xC8, 0x80, 0x04]);
    system.tick();
    system.tick();
    assert_eq!(system.v[0x0], 144);
    assert_eq!(system.v[0xF], 1);
}

#[test]
fn test_subtract_with_borrow_wraps_to_251() {
    // 5 - 10 wraps to 251 and sets the borrow flag.
    let mut system = load(vec![0x60, 0x05, 0x61, 0x0A, 0x80, 0x15]);
    for _ in 0..3 {
        system.tick();
    }
    assert_eq!(system.v[0x0], 251);
    assert_eq!(system.v[0xF], 1);
}

#[test]
fn test_reverse_subtract() {
    let mut system = load(vec![0x60, 0x0A, 0x61, 0x05, 0x80, 0x17]);
    for _ in 0..3 {
        system.tick();
    }
    assert_eq!(system.v[0x0], 251);
    assert_eq!(system.v[0xF], 1);
}

#[test]
fn test_logic_ops() {
    let mut system = load(vec![0x60, 0x0F, 0x61, 0xF0, 0x80, 0x11]);
    for _ in 0..3 {
        system.tick();
    }
    assert_eq!(system.v[0x0], 0xFF);

    let mut system = load(vec![0x60, 0x0F, 0x61, 0xF0, 0x80, 0x12]);
    for _ in 0..3 {
        system.tick();
    }
    assert_eq!(system.v[0x0], 0x00);

    let mut system = load(vec![0x60, 0xFF, 0x61, 0xF0, 0x80, 0x13]);
    for _ in 0..3 {
        system.tick();
    }
    assert_eq!(system.v[0x0], 0x0F);

    let mut system = load(vec![0x61, 0x77, 0x80, 0x10]);
    system.tick();
    system.tick();
    assert_eq!(system.v[0x0], 0x77);
}

#[test]
fn test_shift_right_reports_low_bit() {
    let mut system = load(vec![0x60, 0x05, 0x80, 0x06]);
    system.tick();
    system.tick();
    assert_eq!(system.v[0x0], 2);
    assert_eq!(system.v[0xF], 1);
}

#[test]
fn test_shift_left_reports_high_bit() {
    let mut system = load(vec![0x60, 0x81, 0x80, 0x0E]);
    system.tick();
    system.tick();
    assert_eq!(system.v[0x0], 2);
    assert_eq!(system.v[0xF], 1);
}

#[test]
fn test_unknown_subcodes_are_no_ops() {
    let mut system = load(vec![0x80, 0x09, 0xE0, 0x00, 0xF0, 0xFF]);
    for _ in 0..3 {
        system.tick();
    }
    assert_eq!(system.pc, 0x206);
    assert!(system.v.iter().all(|&b| b == 0));
}

#[test]
fn test_jump_with_offset_uses_register_zero() {
    let mut system = load(vec![0x60, 0x10, 0xB1, 0x23]);
    system.tick();
    system.tick();
    assert_eq!(system.pc, 0x33);
}

#[test]
fn test_masked_random_with_zero_mask() {
    // Whatever byte the randomness source gave, the zero mask clears it.
    let mut system = load(vec![0x60, 0x55, 0xC0, 0x00]);
    system.tick();
    system.tick();
    assert_eq!(system.v[0x0], 0);
}

#[test]
fn test_masked_random_stays_in_mask() {
    let mut system = load(vec![0xC0, 0x0F]);
    system.tick();
    assert!(system.v[0x0] <= 0x0F);
}

#[test]
fn test_draw_twice_restores_and_collides() {
    // Draw the font glyph for 0 at the top-left corner, twice.
    let mut system = load(vec![0xD0, 0x05, 0xD0, 0x05]);
    system.tick();
    assert_eq!(system.v[0xF], 0);
    assert!(system.get_framebuffer().iter().any(|&b| b != 0));
    system.tick();
    assert_eq!(system.v[0xF], 1);
    assert!(system.get_framebuffer().iter().all(|&b| b == 0));
}

#[test]
fn test_draw_pixels_match_sprite() {
    // One row, 0xF0: the four leftmost pixels of the top row light up.
    let mut system = load(vec![0xA0, 0x00, 0xD0, 0x01]);
    system.tick();
    system.tick();
    let fb = system.get_framebuffer();
    for px in 0..8 {
        let lit = px < 4;
        for ch in 0..4 {
            assert_eq!(fb[px * 4 + ch], if lit { 0xFF } else { 0x00 });
        }
    }
}

#[test]
fn test_clear_screen() {
    let mut system = load(vec![0xD0, 0x05, 0x00, 0xE0]);
    system.tick();
    assert!(system.get_framebuffer().iter().any(|&b| b != 0));
    system.tick();
    assert!(system.get_framebuffer().iter().all(|&b| b == 0));
}

#[test]
fn test_set_key_sets_and_clears_bits() {
    let mut system = System::new();
    system.set_key(3, true);
    assert_eq!(system.input, 1 << 3);
    system.set_key(9, true);
    assert_eq!(system.input, (1 << 3) | (1 << 9));
    system.set_key(9, false);
    assert_eq!(system.input, 1 << 3);
    system.set_key(3, false);
    assert_eq!(system.input, 0);
}

#[test]
fn test_skip_if_key_pressed() {
    let mut system = load(vec![0x60, 0x02, 0xE0, 0x9E]);
    system.set_key(2, true);
    system.tick();
    system.tick();
    assert_eq!(system.pc, 0x206);
}

#[test]
fn test_skip_if_key_not_pressed() {
    let mut system = load(vec![0x60, 0x03, 0xE0, 0xA1]);
    system.tick();
    system.tick();
    assert_eq!(system.pc, 0x206);
}

#[test]
fn test_key_wait_blocks_then_stores_index() {
    let mut system = load(vec![0xF0, 0x0A]);
    // No change in the input mask: the instruction re-executes.
    system.tick();
    assert_eq!(system.pc, 0x200);
    system.tick();
    assert_eq!(system.pc, 0x200);
    // The mask changes from 0b0000_0000 to 0b0000_0010.
    system.set_key(1, true);
    system.tick();
    assert_eq!(system.v[0x0], 1);
    assert_eq!(system.pc, 0x202);
}

#[test]
fn test_timers_decrement_once_per_cycle() {
    let mut system = load(vec![0x60, 0x05, 0xF0, 0x15, 0xF0, 0x18]);
    system.tick();
    system.tick();
    // The delay timer was set to 5 and then decremented this same cycle.
    assert_eq!(system.delay_timer, 4);
    system.tick();
    assert_eq!(system.delay_timer, 3);
    assert_eq!(system.sound_timer, 4);
}

#[test]
fn test_delay_timer_read() {
    let mut system = load(vec![0x60, 0x07, 0xF0, 0x15, 0xF1, 0x07]);
    for _ in 0..3 {
        system.tick();
    }
    // Set to 7, decremented once before the cycle that reads it.
    assert_eq!(system.v[0x1], 6);
}

#[test]
fn test_index_add() {
    let mut system = load(vec![0xA3, 0x00, 0x60, 0x05, 0xF0, 0x1E]);
    for _ in 0..3 {
        system.tick();
    }
    assert_eq!(system.i, 0x305);
}

#[test]
fn test_font_glyph_address() {
    let mut system = load(vec![0x60, 0x07, 0xF0, 0x29]);
    system.tick();
    system.tick();
    assert_eq!(system.i, 35);
}

#[test]
fn test_bcd_decomposition() {
    let mut system = load(vec![0x60, 0xFE, 0xA3, 0x00, 0xF0, 0x33]);
    for _ in 0..3 {
        system.tick();
    }
    assert_eq!(system.mem[0x300], 2);
    assert_eq!(system.mem[0x301], 5);
    assert_eq!(system.mem[0x302], 4);
}

#[test]
fn test_block_transfer_round_trip() {
    let mut system = load(vec![
        0x60, 0x01, 0x61, 0x02, 0x62, 0x03, // v0..v2 = 1, 2, 3
        0xA3, 0x00, 0xF3, 0x55, // store v0..v2 at 0x300
        0x60, 0x00, 0x61, 0x00, 0x62, 0x00, // clobber v0..v2
        0xA3, 0x00, 0xF3, 0x65, // load v0..v2 back
    ]);
    for _ in 0..5 {
        system.tick();
    }
    // The store advanced the index by 3 + 1.
    assert_eq!(system.i, 0x304);
    assert_eq!(system.mem[0x300], 1);
    assert_eq!(system.mem[0x301], 2);
    assert_eq!(system.mem[0x302], 3);
    for _ in 0..5 {
        system.tick();
    }
    assert_eq!(system.v[0x0], 1);
    assert_eq!(system.v[0x1], 2);
    assert_eq!(system.v[0x2], 3);
    assert_eq!(system.i, 0x304);
}

#[test]
fn test_frame_runs_nine_cycles() {
    let mut system = load(vec![0x70, 0x01]);
    let running = system.run_to_next_frame();
    assert_eq!(system.pc, 0x200 + 9 * 2);
    assert_eq!(system.v[0x0], 1);
    assert!(!running);
}

#[test]
fn test_frame_reports_running() {
    // Enough non-zero instruction words that the next fetch stays non-zero.
    let mut rom = Vec::new();
    for _ in 0..16 {
        rom.push(0x70);
        rom.push(0x01);
    }
    let mut system = load(rom);
    let running = system.run_to_next_frame();
    assert!(running);
    assert_eq!(system.v[0x0], 9);
}
