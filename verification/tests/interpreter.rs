use chip8::display::Display;
use chip8::interpreter::Interpreter;
use chip8::keyconf::COSMACVIP;
use chip8::memory::{Memory, DISPLAY_LOC};

const FONT: [u8; 80] = [
    0xF0, 0x90, 0x90, 0x90, 0xF0, // 0
    0x20, 0x60, 0x20, 0x20, 0x70, // 1
    0xF0, 0x10, 0xF0, 0x80, 0xF0, // 2
    0xF0, 0x10, 0xF0, 0x10, 0xF0, // 3
    0x90, 0x90, 0xF0, 0x10, 0x10, // 4
    0xF0, 0x80, 0xF0, 0x10, 0xF0, // 5
    0xF0, 0x80, 0xF0, 0x90, 0xF0, // 6
    0xF0, 0x10, 0x20, 0x40, 0x40, // 7
    0xF0, 0x90, 0xF0, 0x90, 0xF0, // 8
    0xF0, 0x90, 0xF0, 0x10, 0xF0, // 9
    0xF0, 0x90, 0xF0, 0x90, 0x90, // A
    0xE0, 0x90, 0xE0, 0x90, 0xE0, // B
    0xF0, 0x80, 0x80, 0x80, 0xF0, // C
    0xE0, 0x90, 0x90, 0x90, 0xE0, // D
    0xF0, 0x80, 0xF0, 0x80, 0xF0, // E
    0xF0, 0x80, 0xF0, 0x80, 0x80, // F
];

#[test]
fn test_set_vx() {
    let mut mem = Memory::new();
    mem.load_prog(&[0x60, 0xC0, 0x00, 0x00]);
    let mut interpreter = Interpreter::new();

    while !interpreter.stop() {
        interpreter.step(&mut mem).unwrap();
    }

    assert_eq!(0xC0, interpreter.vx(0));
}

#[test]
fn test_add_to_vx() {
    let mut mem = Memory::new();
    mem.load_prog(&[0x70, 0x01, 0x00, 0x00]);
    let mut interpreter = Interpreter::new();
    interpreter.set_vx(0, 0xC0);

    while !interpreter.stop() {
        interpreter.step(&mut mem).unwrap();
    }

    assert_eq!(0xC1, interpreter.vx(0));
}

#[test]
fn test_set_vi() {
    let mut mem = Memory::new();
    mem.load_prog(&[0xAC, 0xC0, 0x00, 0x00]);
    let mut interpreter = Interpreter::new();

    while !interpreter.stop() {
        interpreter.step(&mut mem).unwrap();
    }

    assert_eq!(0xCC0, interpreter.vi());
}

#[test]
fn test_jump() {
    let mut mem = Memory::new();
    mem.load_prog(&[0x12, 0x04, 0x00, 0x00]);
    let mut interpreter = Interpreter::new();

    while !interpreter.stop() {
        interpreter.step(&mut mem).unwrap();
    }

    assert_eq!(0x0206, interpreter.pc());
}

#[test]
fn test_jump_with_offset() {
    let mut mem = Memory::new();
    mem.load_prog(&[
        0x60, 0x01, // set V0 to 0x01
        0xB2, 0x04, // jump to 0x204 + V0
        0x00, 0x00,
    ]);
    let mut interpreter = Interpreter::new();

    while !interpreter.stop() {
        interpreter.step(&mut mem).unwrap();
    }

    assert_eq!(0x0207, interpreter.pc());
}

#[test]
fn test_clear_screen() {
    let mut mem = Memory::new();
    mem.load_prog(&[0x00, 0xE0, 0x00, 0x00]);
    let mut interpreter = Interpreter::new();

    Display::write_pixel(&mut mem, 2, 3);

    while !interpreter.stop() {
        interpreter.step(&mut mem).unwrap();
    }

    for pixel_addr in 0x00..0xFF {
        assert_eq!(0, mem.read(DISPLAY_LOC + pixel_addr));
    }
}

#[test]
fn test_display() {
    let mut mem = Memory::new();

    /*
    sprite is at addr 0x020A (I set to 0x020A)
    it looks like
    11111111
    11110000
    11010101
    11111111

    we draw it at x = 1 and y = 2 (V0 set to 1 and V1 set to 2)
    we draw only the first two bytes (DXY2) of the sprite
    */

    // manually write the pixel at 2, 3 (this is on the location that will
    // be written) to cause a collision
    // this is to check that VF is equal to 1 after the display instruction
    Display::write_pixel(&mut mem, 2, 3);

    mem.load_prog(&[
        0xA2, 0x0A, 0x60, 0x01, 0x61, 0x02, 0xD0, 0x12, 0x00, 0x00, 0b11111111, 0b11110000,
        0b11010101, 0b11111111,
    ]);

    let mut interpreter = Interpreter::new();

    while !interpreter.stop() {
        interpreter.step(&mut mem).unwrap();
    }

    // check collision has set VF
    assert_eq!(interpreter.vf(), 1);

    for row in 0..32 {
        for col in 0..64 {
            // this is where collision happens
            if col == 2 && row == 3 {
                assert_eq!(Display::read_pixel(&mem, col, row), 0);
                continue;
            }

            // first byte of sprite
            if col >= 1 && col <= 8 && row == 2 {
                assert_eq!(Display::read_pixel(&mem, col, row), 1);
            // second byte of sprite
            } else if col >= 1 && col <= 4 && row == 3 {
                assert_eq!(Display::read_pixel(&mem, col, row), 1);
            } else {
                assert_eq!(Display::read_pixel(&mem, col, row), 0);
            }
        }
    }
}

#[test]
fn test_subroutines() {
    let mut mem = Memory::new();
    mem.load_prog(&[0x00, 0xE0, 0x22, 0x06, 0x00, 0x00, 0xA0, 0xC0, 0x00, 0xEE]); // clear screen, jump to 0x0206 subroutine, set VI and return
    let mut interpreter = Interpreter::new();

    while !interpreter.stop() {
        interpreter.step(&mut mem).unwrap();
    }

    assert_eq!(0x0206, interpreter.pc());
    assert_eq!(0x0C0, interpreter.vi());
}

#[test]
fn test_skip_if_vx_equals_nn() {
    let mut mem = Memory::new();
    mem.load_prog(&[
        0x60, 0xAA, // set V0
        0x30, 0xAA, 0x00, 0x00, // skip next if V0 == 0xAA
        0x40, 0xBB, 0x00, 0x00, // skip next if V0 != 0xBB
        0xAC, 0xC0, 0x00, 0x00, // set VI to 0xCC0
    ]);
    let mut interpreter = Interpreter::new();

    while !interpreter.stop() {
        interpreter.step(&mut mem).unwrap();
    }

    assert_eq!(0xCC0, interpreter.vi());
}

#[test]
fn test_skip_if_vx_equals_vy() {
    let mut mem = Memory::new();
    mem.load_prog(&[
        0x60, 0xAA, 0x61, 0xAA, // set V0, V1
        0x50, 0x10, 0x00, 0x00, // skip next if V0 == V1
        0x60, 0xAA, 0x61, 0xBB, // set V0, V1
        0x90, 0x10, 0x00, 0x00, // skip next if V0 != V1
        0xAC, 0xC0, 0x00, 0x00, // set VI to 0xCC0
    ]);
    let mut interpreter = Interpreter::new();

    while !interpreter.stop() {
        interpreter.step(&mut mem).unwrap();
    }

    assert_eq!(0xCC0, interpreter.vi());
}

#[test]
fn test_logical_arithmetic_set() {
    let mut mem = Memory::new();
    mem.load_prog(&[
        0x60, 0xAA, 0x61, 0xBB, // set V0, V1
        0x80, 0x10, 0x00, 0x00, // set V0 to V1
    ]);
    let mut interpreter = Interpreter::new();

    while !interpreter.stop() {
        interpreter.step(&mut mem).unwrap();
    }

    assert_eq!(0xBB, interpreter.vx(0));
}

#[test]
fn test_logical_arithmetic_binary_or() {
    let mut mem = Memory::new();
    mem.load_prog(&[
        0x60, 0x00, 0x61, 0x00, // set V0, V1
        0x62, 0x00, 0x63, 0x01, // set V2, V3
        0x64, 0x01, 0x65, 0x00, // set V4, V5
        0x66, 0x01, 0x67, 0x01, // set V6, V7
        0x80, 0x11, 0x82, 0x31, // V0 = V0 | V1, V2 = V2 | V3
        0x84, 0x51, 0x86, 0x71, // V4 = V4 | V5, V6 = V6 | V7
        0x00, 0x00,
    ]);
    let mut interpreter = Interpreter::new();

    while !interpreter.stop() {
        interpreter.step(&mut mem).unwrap();
    }

    assert_eq!(0x00, interpreter.vx(0));
    assert_eq!(0x01, interpreter.vx(2));
    assert_eq!(0x01, interpreter.vx(4));
    assert_eq!(0x01, interpreter.vx(6));
}

#[test]
fn test_logical_arithmetic_binary_and() {
    let mut mem = Memory::new();
    mem.load_prog(&[
        0x60, 0x00, 0x61, 0x00, // set V0, V1
        0x62, 0x00, 0x63, 0x01, // set V2, V3
        0x64, 0x01, 0x65, 0x00, // set V4, V5
        0x66, 0x01, 0x67, 0x01, // set V6, V7
        0x80, 0x12, 0x82, 0x32, // V0 = V0 & V1, V2 = V2 & V3
        0x84, 0x52, 0x86, 0x72, // V4 = V4 & V5, V6 = V6 & V7
        0x00, 0x00,
    ]);
    let mut interpreter = Interpreter::new();

    while !interpreter.stop() {
        interpreter.step(&mut mem).unwrap();
    }

    assert_eq!(0x00, interpreter.vx(0));
    assert_eq!(0x00, interpreter.vx(2));
    assert_eq!(0x00, interpreter.vx(4));
    assert_eq!(0x01, interpreter.vx(6));
}

#[test]
fn test_logical_arithmetic_binary_xor() {
    let mut mem = Memory::new();
    mem.load_prog(&[
        0x60, 0x00, 0x61, 0x00, // set V0, V1
        0x62, 0x00, 0x63, 0x01, // set V2, V3
        0x64, 0x01, 0x65, 0x00, // set V4, V5
        0x66, 0x01, 0x67, 0x01, // set V6, V7
        0x80, 0x13, 0x82, 0x33, // V0 = V0 ^ V1, V2 = V2 ^ V3
        0x84, 0x53, 0x86, 0x73, // V4 = V4 ^ V5, V6 = V6 ^ V7
        0x00, 0x00,
    ]);
    let mut interpreter = Interpreter::new();

    while !interpreter.stop() {
        interpreter.step(&mut mem).unwrap();
    }

    assert_eq!(0x00, interpreter.vx(0));
    assert_eq!(0x01, interpreter.vx(2));
    assert_eq!(0x01, interpreter.vx(4));
    assert_eq!(0x00, interpreter.vx(6));
}

#[test]
fn test_logical_arithmetic_and() {
    let mut mem = Memory::new();
    mem.load_prog(&[
        0x60, 0xFC, 0x61, 0x03, // set V0, V1
        0x80, 0x14, 0x80, 0x14, // V0 = V0 + V1, V0 = V0 + V1 -> overflow
        0x00, 0x00,
    ]);
    let mut interpreter = Interpreter::new();

    while !interpreter.stop() {
        interpreter.step(&mut mem).unwrap();
    }

    assert_eq!(0x02, interpreter.vx(0));
    assert_eq!(0x01, interpreter.vf());
}

#[test]
fn test_logical_arithmetic_sub() {
    let mut mem = Memory::new();
    mem.load_prog(&[
        0x60, 0xFF, 0x61, 0x01, // set V0, V1
        0x62, 0x02, 0x63, 0x00, // set V2, V3
        0x80, 0x15, 0x82, 0x37, // V0 = V0 - V1, V2 = V3 - V2 -> underflow
        0x00, 0x00,
    ]);
    let mut interpreter = Interpreter::new();

    while !interpreter.stop() {
        interpreter.step(&mut mem).unwrap();
    }

    assert_eq!(0xFE, interpreter.vx(0));
    assert_eq!(0xFE, interpreter.vx(2));
    assert_eq!(0x00, interpreter.vf());
}

#[test]
fn test_logical_arithmetic_bit_shift() {
    let mut mem = Memory::new();
    mem.load_prog(&[
        0x60, 0x02, 0x61, 0xFF, // set V0, V1
        0x80, 0x06, 0x81, 0x1E, // V0 = V0 >> 1, V1 = V1 << 1
        0x00, 0x00,
    ]);
    let mut interpreter = Interpreter::new();

    while !interpreter.stop() {
        interpreter.step(&mut mem).unwrap();
    }

    assert_eq!(0b0000_0001, interpreter.vx(0));
    assert_eq!(0b1111_1110, interpreter.vx(1));
    assert_eq!(0x01, interpreter.vf());
}

#[test]
fn test_skip_if_key_pressed() {
    let mut mem = Memory::new();
    mem.load_prog(&[
        0x60, 0x0A, // set V0
        0xE0, 0x9E, 0x00, 0x00, // skip next if V0 == 0xAA
        0xAC, 0xC0, 0x00, 0x00, // set VI to 0xCC0
    ]);
    let mut interpreter = Interpreter::new();

    while !interpreter.stop() {
        // emulate key 0x0A pressed
        interpreter.apply_input(&[COSMACVIP::KEYA]);
        interpreter.step(&mut mem).unwrap();
    }

    assert_eq!(0xCC0, interpreter.vi());
}

#[test]
fn test_skip_if_key_not_pressed() {
    let mut mem = Memory::new();
    mem.load_prog(&[
        0x60, 0x0A, // set V0
        0xE0, 0xA1, 0x00, 0x00, // skip next if V0 == 0xAA
        0xAC, 0xC0, 0x00, 0x00, // set VI to 0xCC0
    ]);
    let mut interpreter = Interpreter::new();

    while !interpreter.stop() {
        // emulate key 0x0A not pressed
        interpreter.apply_input(&[]);
        interpreter.step(&mut mem).unwrap();
    }

    assert_eq!(0xCC0, interpreter.vi());
}

#[test]
fn test_set_timers() {
    let mut mem = Memory::new();
    mem.load_prog(&[
        0x60, 0x0A, // set V0
        0xF0, 0x15, 0xF0, 0x18, // delay timer = V0, sound timer = V0
        0x00, 0x00,
    ]);
    let mut interpreter = Interpreter::new();

    while !interpreter.stop() {
        interpreter.step(&mut mem).unwrap();
    }

    interpreter.decrement_timers();

    assert_eq!(0x0A - 1, interpreter.dt());
    assert_eq!(0x0A - 1, interpreter.st());
}

#[test]
fn test_read_delay_timer() {
    let mut mem = Memory::new();
    mem.load_prog(&[
        0x60, 0xAA, // set V0 to 0xAA
        0xF0, 0x07, // set V0 to delay timer
        0x00, 0x00,
    ]);
    let mut interpreter = Interpreter::new();

    while !interpreter.stop() {
        interpreter.step(&mut mem).unwrap();
    }

    assert_eq!(0x00, interpreter.vx(0));
}

#[test]
fn test_add_to_index() {
    let mut mem = Memory::new();
    mem.load_prog(&[
        0xAC, 0xC0, // set VI to 0xCC0
        0x60, 0x02, // set V0 to 0x02
        0xF0, 0x1E, // VI = VI + V0
        0x00, 0x00,
    ]);
    let mut interpreter = Interpreter::new();

    while !interpreter.stop() {
        interpreter.step(&mut mem).unwrap();
    }

    assert_eq!(0xCC2, interpreter.vi());
}

#[test]
fn test_font_character() {
    let font = FONT;

    let mut mem = Memory::new();
    mem.load_font(&font);

    mem.load_prog(&[
        0x60, 0x0A, // set V0 to 0x0A
        0xF0, 0x29, // VI = mem addr of character of hex at V0
        0x00, 0x00,
    ]);
    let mut interpreter = Interpreter::new();

    while !interpreter.stop() {
        interpreter.step(&mut mem).unwrap();
    }

    // hex(0x050 + 5 * 0x0A) = 0x82
    assert_eq!(0x82, interpreter.vi());
    assert_eq!(0xF0, mem.read(interpreter.vi()));
}

#[test]
fn test_binary_coded_decimal_conversion() {
    let mut mem = Memory::new();
    mem.load_prog(&[
        0x60, 0x9C, // set V0 to 0x9C (= 156)
        0xA5, 0x00, // VI = 0x500
        0xF0, 0x33, // mem write V0 at addr VI
        0x00, 0x00,
    ]);
    let mut interpreter = Interpreter::new();

    while !interpreter.stop() {
        interpreter.step(&mut mem).unwrap();
    }

    assert_eq!(1, mem.read(0x500));
    assert_eq!(5, mem.read(0x501));
    assert_eq!(6, mem.read(0x502));
}

#[test]
fn test_mem_write_registers() {
    let mut mem = Memory::new();
    mem.load_prog(&[
        0x60, 0x9C, // set V0 to 0x9C
        0x61, 0x9D, // set V0 to 0x9D
        0x62, 0x9E, // set V0 to 0x9E
        0xA5, 0x00, // VI = 0x500
        0xF2, 0x55, // mem write V0..(V2 + 1) at addr VI
        0x00, 0x00,
    ]);
    let mut interpreter = Interpreter::new();

    while !interpreter.stop() {
        interpreter.step(&mut mem).unwrap();
    }

    assert_eq!(0x9C, mem.read(0x500));
    assert_eq!(0x9D, mem.read(0x501));
    assert_eq!(0x9E, mem.read(0x502));
    assert_eq!(0x00, mem.read(0x503));
}

#[test]
fn test_registers_read_mem() {
    let mut mem = Memory::new();
    mem.write(0x500, 0x9C);
    mem.write(0x501, 0x9D);
    mem.write(0x502, 0x9E);

    mem.load_prog(&[
        0xA5, 0x00, // VI = 0x500
        0xF2, 0x65, // mem read V0..(V2 + 1) at addr VI
        0x00, 0x00,
    ]);
    let mut interpreter = Interpreter::new();

    while !interpreter.stop() {
        interpreter.step(&mut mem).unwrap();
    }

    assert_eq!(0x9C, interpreter.vx(0));
    assert_eq!(0x9D, interpreter.vx(1));
    assert_eq!(0x9E, interpreter.vx(2));
    assert_eq!(0x00, interpreter.vx(3));
}
