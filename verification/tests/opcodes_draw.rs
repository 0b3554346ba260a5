use chip8::emu::Emu;

fn txt_to_byte(txt: &str) -> u8 {
    let mut bits: u8 = 0b00000000;
    for (i, c) in txt.chars().enumerate() {
        bits |= if c == '#' { 0b10000000 } else { 0b00000000 } >> i;
    }
    bits
}

fn booleans_to_byte(emu: &Emu, x: usize, y: usize) -> u8 {
    let mut bits: u8 = 0b00000000;
    for i in 0..8 {
        bits |= if emu.pixel(x + i, y) { 0b10000000 } else { 0b00000000 } >> i;
    }
    bits
}

#[test]
fn test_opcode_dxyn_simple_draw() {
    let mut emu = Emu::new();
    //given
    emu.pc = 0x0000;
    emu.draw = false;
    emu.v[1] = 0x0005;
    emu.v[2] = 0x0006;
    emu.ram_idx = 0x222;
    emu.ram[(emu.ram_idx + 0) as usize] = 0b01010101 as u8;
    emu.ram[(emu.ram_idx + 1) as usize] = 0b11111111 as u8;

    //when
    emu.opcode = 0xd122;
    emu.decode_and_execute_opcode().unwrap();

    //then
    assert_eq!(false, emu.pixel(0x0005 + 0, 0x0006 + 0));
    assert_eq!(true, emu.pixel(0x0005 + 1, 0x0006 + 0));
    assert_eq!(false, emu.pixel(0x0005 + 2, 0x0006 + 0));
    assert_eq!(true, emu.pixel(0x0005 + 3, 0x0006 + 0));
    assert_eq!(false, emu.pixel(0x0005 + 4, 0x0006 + 0));
    assert_eq!(true, emu.pixel(0x0005 + 5, 0x0006 + 0));
    assert_eq!(false, emu.pixel(0x0005 + 6, 0x0006 + 0));
    assert_eq!(true, emu.pixel(0x0005 + 7, 0x0006 + 0));

    assert_eq!(true, emu.pixel(0x0005 + 0, 0x0006 + 1));
    assert_eq!(true, emu.pixel(0x0005 + 1, 0x0006 + 1));
    assert_eq!(true, emu.pixel(0x0005 + 2, 0x0006 + 1));
    assert_eq!(true, emu.pixel(0x0005 + 3, 0x0006 + 1));
    assert_eq!(true, emu.pixel(0x0005 + 4, 0x0006 + 1));
    assert_eq!(true, emu.pixel(0x0005 + 5, 0x0006 + 1));
    assert_eq!(true, emu.pixel(0x0005 + 6, 0x0006 + 1));
    assert_eq!(true, emu.pixel(0x0005 + 7, 0x0006 + 1));

    assert_eq!(true, emu.draw);
    assert_eq!(0x00, emu.v[0x0f]);
    assert_eq!(0x0000 + 2, emu.pc);
}

#[test]
fn test_opcode_dxyn_simple_undraw() {
    let mut emu = Emu::new();
    //given
    emu.pc = 0x0000;
    emu.draw = false;

    emu.set_pixel(0x0005 + 0, 0x006 + 0, false);
    emu.set_pixel(0x0005 + 1, 0x006 + 0, true);
    emu.set_pixel(0x0005 + 2, 0x006 + 0, false);
    emu.set_pixel(0x0005 + 3, 0x006 + 0, true);
    emu.set_pixel(0x0005 + 4, 0x006 + 0, false);
    emu.set_pixel(0x0005 + 5, 0x006 + 0, true);
    emu.set_pixel(0x0005 + 6, 0x006 + 0, false);
    emu.set_pixel(0x0005 + 7, 0x006 + 0, true);

    emu.set_pixel(0x0005 + 0, 0x006 + 1, true);
    emu.set_pixel(0x0005 + 1, 0x006 + 1, true);
    emu.set_pixel(0x0005 + 2, 0x006 + 1, true);
    emu.set_pixel(0x0005 + 3, 0x006 + 1, true);
    emu.set_pixel(0x0005 + 4, 0x006 + 1, true);
    emu.set_pixel(0x0005 + 5, 0x006 + 1, true);
    emu.set_pixel(0x0005 + 6, 0x006 + 1, true);
    emu.set_pixel(0x0005 + 7, 0x006 + 1, true);

    emu.v[1] = 0x0005;
    emu.v[2] = 0x0006;
    emu.ram_idx = 0x222;
    emu.ram[(emu.ram_idx + 0) as usize] = 0b01010101 as u8;
    emu.ram[(emu.ram_idx + 1) as usize] = 0b11111111 as u8;

    //when
    emu.opcode = 0xd122;
    emu.decode_and_execute_opcode().unwrap();

    //then
    assert_eq!(false, emu.pixel(0x0005 + 0, 0x0006 + 0));
    assert_eq!(false, emu.pixel(0x0005 + 1, 0x0006 + 0));
    assert_eq!(false, emu.pixel(0x0005 + 2, 0x0006 + 0));
    assert_eq!(false, emu.pixel(0x0005 + 3, 0x0006 + 0));
    assert_eq!(false, emu.pixel(0x0005 + 4, 0x0006 + 0));
    assert_eq!(false, emu.pixel(0x0005 + 5, 0x0006 + 0));
    assert_eq!(false, emu.pixel(0x0005 + 6, 0x0006 + 0));
    assert_eq!(false, emu.pixel(0x0005 + 7, 0x0006 + 0));

    assert_eq!(false, emu.pixel(0x0005 + 0, 0x0006 + 1));
    assert_eq!(false, emu.pixel(0x0005 + 1, 0x0006 + 1));
    assert_eq!(false, emu.pixel(0x0005 + 2, 0x0006 + 1));
    assert_eq!(false, emu.pixel(0x0005 + 3, 0x0006 + 1));
    assert_eq!(false, emu.pixel(0x0005 + 4, 0x0006 + 1));
    assert_eq!(false, emu.pixel(0x0005 + 5, 0x0006 + 1));
    assert_eq!(false, emu.pixel(0x0005 + 6, 0x0006 + 1));
    assert_eq!(false, emu.pixel(0x0005 + 7, 0x0006 + 1));

    assert_eq!(false, emu.draw);
    assert_eq!(0x01, emu.v[0x0f]);
    assert_eq!(0x0000 + 2, emu.pc);
}

#[test]
fn test_opcode_dxyn_simple_partial_redraw() {
    let mut emu = Emu::new();
    //given
    emu.pc = 0x0000;
    emu.draw = false;

    emu.set_pixel(0x0005 + 0, 0x006 + 0, false);
    emu.set_pixel(0x0005 + 1, 0x006 + 0, true);
    emu.set_pixel(0x0005 + 2, 0x006 + 0, false);
    emu.set_pixel(0x0005 + 3, 0x006 + 0, true);
    emu.set_pixel(0x0005 + 4, 0x006 + 0, false);
    emu.set_pixel(0x0005 + 5, 0x006 + 0, false);
    emu.set_pixel(0x0005 + 6, 0x006 + 0, false);
    emu.set_pixel(0x0005 + 7, 0x006 + 0, false);

    emu.set_pixel(0x0005 + 0, 0x006 + 1, true);
    emu.set_pixel(0x0005 + 1, 0x006 + 1, true);
    emu.set_pixel(0x0005 + 2, 0x006 + 1, true);
    emu.set_pixel(0x0005 + 3, 0x006 + 1, true);
    emu.set_pixel(0x0005 + 4, 0x006 + 1, true);
    emu.set_pixel(0x0005 + 5, 0x006 + 1, true);
    emu.set_pixel(0x0005 + 6, 0x006 + 1, true);
    emu.set_pixel(0x0005 + 7, 0x006 + 1, true);

    emu.v[1] = 0x0005;
    emu.v[2] = 0x0006;
    emu.ram_idx = 0x222;
    emu.ram[(emu.ram_idx + 0) as usize] = 0b11111111 as u8;
    emu.ram[(emu.ram_idx + 1) as usize] = 0b11110000 as u8;

    //when
    emu.opcode = 0xd122;
    emu.decode_and_execute_opcode().unwrap();

    //then
    assert_eq!(true, emu.pixel(0x0005 + 0, 0x0006 + 0));
    assert_eq!(false, emu.pixel(0x0005 + 1, 0x0006 + 0));
    assert_eq!(true, emu.pixel(0x0005 + 2, 0x0006 + 0));
    assert_eq!(false, emu.pixel(0x0005 + 3, 0x0006 + 0));
    assert_eq!(true, emu.pixel(0x0005 + 4, 0x0006 + 0));
    assert_eq!(true, emu.pixel(0x0005 + 5, 0x0006 + 0));
    assert_eq!(true, emu.pixel(0x0005 + 6, 0x0006 + 0));
    assert_eq!(true, emu.pixel(0x0005 + 7, 0x0006 + 0));

    assert_eq!(false, emu.pixel(0x0005 + 0, 0x0006 + 1));
    assert_eq!(false, emu.pixel(0x0005 + 1, 0x0006 + 1));
    assert_eq!(false, emu.pixel(0x0005 + 2, 0x0006 + 1));
    assert_eq!(false, emu.pixel(0x0005 + 3, 0x0006 + 1));
    assert_eq!(true, emu.pixel(0x0005 + 4, 0x0006 + 1));
    assert_eq!(true, emu.pixel(0x0005 + 5, 0x0006 + 1));
    assert_eq!(true, emu.pixel(0x0005 + 6, 0x0006 + 1));
    assert_eq!(true, emu.pixel(0x0005 + 7, 0x0006 + 1));

    assert_eq!(true, emu.draw);
    assert_eq!(0x01, emu.v[0x0f]);
    assert_eq!(0x0000 + 2, emu.pc);
}

#[test]
fn test_opcode_dxyn_underflow_width() {
}

#[test]
fn test_opcode_dxyn_overflow_width() {
}

#[test]
fn test_opcode_dxyn_underflow_height() {
}

#[test]
fn test_opcode_dxyn_overflow_height() {
}

#[test]
fn test_opcode_dxyn_draw_font_0() {
    let mut emu = Emu::new();
    //given
    let fchar = 0x0;
    emu.ram_idx = 0x0000 + (fchar as u16) * 5;
    emu.pc = 0x0000;
    //when
    emu.opcode = 0xd005;
    emu.decode_and_execute_opcode().unwrap();
    //then
    assert_eq!(txt_to_byte("####"), booleans_to_byte(&emu, 0, 0));
    assert_eq!(txt_to_byte("#  #"), booleans_to_byte(&emu, 0, 1));
    assert_eq!(txt_to_byte("#  #"), booleans_to_byte(&emu, 0, 2));
    assert_eq!(txt_to_byte("#  #"), booleans_to_byte(&emu, 0, 3));
    assert_eq!(txt_to_byte("####"), booleans_to_byte(&emu, 0, 4));
    assert_eq!(true, emu.draw);
    assert_eq!(0x00, emu.v[0x0f]);
    assert_eq!(0x0000 + 2, emu.pc);
}

#[test]
fn test_opcode_dxyn_draw_font_1() {
    let mut emu = Emu::new();
    //given
    let fchar = 0x1;
    emu.ram_idx = 0x0000 + (fchar as u16) * 5;
    emu.pc = 0x0000;
    //when
    emu.opcode = 0xd005;
    emu.decode_and_execute_opcode().unwrap();
    //then
    assert_eq!(txt_to_byte("  # "), booleans_to_byte(&emu, 0, 0));
    assert_eq!(txt_to_byte(" ## "), booleans_to_byte(&emu, 0, 1));
    assert_eq!(txt_to_byte("  # "), booleans_to_byte(&emu, 0, 2));
    assert_eq!(txt_to_byte("  # "), booleans_to_byte(&emu, 0, 3));
    assert_eq!(txt_to_byte(" ###"), booleans_to_byte(&emu, 0, 4));
    assert_eq!(true, emu.draw);
    assert_eq!(0x00, emu.v[0x0f]);
    assert_eq!(0x0000 + 2, emu.pc);
}

#[test]
fn test_opcode_dxyn_draw_font_2() {
    let mut emu = Emu::new();
    //given
    let fchar = 0x2;
    emu.ram_idx = 0x0000 + (fchar as u16) * 5;
    emu.pc = 0x0000;
    //when
    emu.opcode = 0xd005;
    emu.decode_and_execute_opcode().unwrap();
    //then
    assert_eq!(txt_to_byte("####"), booleans_to_byte(&emu, 0, 0));
    assert_eq!(txt_to_byte("   #"), booleans_to_byte(&emu, 0, 1));
    assert_eq!(txt_to_byte("####"), booleans_to_byte(&emu, 0, 2));
    assert_eq!(txt_to_byte("#   "), booleans_to_byte(&emu, 0, 3));
    assert_eq!(txt_to_byte("####"), booleans_to_byte(&emu, 0, 4));
    assert_eq!(true, emu.draw);
    assert_eq!(0x00, emu.v[0x0f]);
    assert_eq!(0x0000 + 2, emu.pc);
}

#[test]
fn test_opcode_dxyn_draw_font_3() {
    let mut emu = Emu::new();
    //given
    let fchar = 0x3;
    emu.ram_idx = 0x0000 + (fchar as u16) * 5;
    emu.pc = 0x0000;
    //when
    emu.opcode = 0xd005;
    emu.decode_and_execute_opcode().unwrap();
    //then
    assert_eq!(txt_to_byte("####"), booleans_to_byte(&emu, 0, 0));
    assert_eq!(txt_to_byte("   #"), booleans_to_byte(&emu, 0, 1));
    assert_eq!(txt_to_byte("####"), booleans_to_byte(&emu, 0, 2));
    assert_eq!(txt_to_byte("   #"), booleans_to_byte(&emu, 0, 3));
    assert_eq!(txt_to_byte("####"), booleans_to_byte(&emu, 0, 4));
    assert_eq!(true, emu.draw);
    assert_eq!(0x00, emu.v[0x0f]);
    assert_eq!(0x0000 + 2, emu.pc);
}

#[test]
fn test_opcode_dxyn_draw_font_4() {
    let mut emu = Emu::new();
    //given
    let fchar = 0x4;
    emu.ram_idx = 0x0000 + (fchar as u16) * 5;
    emu.pc = 0x0000;
    //when
    emu.opcode = 0xd005;
    emu.decode_and_execute_opcode().unwrap();
    //then
    assert_eq!(txt_to_byte("#  #"), booleans_to_byte(&emu, 0, 0));
    assert_eq!(txt_to_byte("#  #"), booleans_to_byte(&emu, 0, 1));
    assert_eq!(txt_to_byte("####"), booleans_to_byte(&emu, 0, 2));
    assert_eq!(txt_to_byte("   #"), booleans_to_byte(&emu, 0, 3));
    assert_eq!(txt_to_byte("   #"), booleans_to_byte(&emu, 0, 4));
    assert_eq!(true, emu.draw);
    assert_eq!(0x00, emu.v[0x0f]);
    assert_eq!(0x0000 + 2, emu.pc);
}

#[test]
fn test_opcode_dxyn_draw_font_5() {
    let mut emu = Emu::new();
    //given
    let fchar = 0x5;
    emu.ram_idx = 0x0000 + (fchar as u16) * 5;
    emu.pc = 0x0000;
    //when
    emu.opcode = 0xd005;
    emu.decode_and_execute_opcode().unwrap();
    //then
    assert_eq!(txt_to_byte("####"), booleans_to_byte(&emu, 0, 0));
    assert_eq!(txt_to_byte("#   "), booleans_to_byte(&emu, 0, 1));
    assert_eq!(txt_to_byte("####"), booleans_to_byte(&emu, 0, 2));
    assert_eq!(txt_to_byte("   #"), booleans_to_byte(&emu, 0, 3));
    assert_eq!(txt_to_byte("####"), booleans_to_byte(&emu, 0, 4));
    assert_eq!(true, emu.draw);
    assert_eq!(0x00, emu.v[0x0f]);
    assert_eq!(0x0000 + 2, emu.pc);
}

#[test]
fn test_opcode_dxyn_draw_font_6() {
    let mut emu = Emu::new();
    //given
    let fchar = 0x6;
    emu.ram_idx = 0x0000 + (fchar as u16) * 5;
    emu.pc = 0x0000;
    //when
    emu.opcode = 0xd005;
    emu.decode_and_execute_opcode().unwrap();
    //then
    assert_eq!(txt_to_byte("####"), booleans_to_byte(&emu, 0, 0));
    assert_eq!(txt_to_byte("#   "), booleans_to_byte(&emu, 0, 1));
    assert_eq!(txt_to_byte("####"), booleans_to_byte(&emu, 0, 2));
    assert_eq!(txt_to_byte("#  #"), booleans_to_byte(&emu, 0, 3));
    assert_eq!(txt_to_byte("####"), booleans_to_byte(&emu, 0, 4));
    assert_eq!(true, emu.draw);
    assert_eq!(0x00, emu.v[0x0f]);
    assert_eq!(0x0000 + 2, emu.pc);
}

#[test]
fn test_opcode_dxyn_draw_font_7() {
    let mut emu = Emu::new();
    //given
    let fchar = 0x7;
    emu.ram_idx = 0x0000 + (fchar as u16) * 5;
    emu.pc = 0x0000;
    //when
    emu.opcode = 0xd005;
    emu.decode_and_execute_opcode().unwrap();
    //then
    assert_eq!(txt_to_byte("####"), booleans_to_byte(&emu, 0, 0));
    assert_eq!(txt_to_byte("   #"), booleans_to_byte(&emu, 0, 1));
    assert_eq!(txt_to_byte("  # "), booleans_to_byte(&emu, 0, 2));
    assert_eq!(txt_to_byte(" #  "), booleans_to_byte(&emu, 0, 3));
    assert_eq!(txt_to_byte(" #  "), booleans_to_byte(&emu, 0, 4));
    assert_eq!(true, emu.draw);
    assert_eq!(0x00, emu.v[0x0f]);
    assert_eq!(0x0000 + 2, emu.pc);
}

#[test]
fn test_opcode_dxyn_draw_font_8() {
    let mut emu = Emu::new();
    //given
    let fchar = 0x8;
    emu.ram_idx = 0x0000 + (fchar as u16) * 5;
    emu.pc = 0x0000;
    //when
    emu.opcode = 0xd005;
    emu.decode_and_execute_opcode().unwrap();
    //then
    assert_eq!(txt_to_byte("####"), booleans_to_byte(&emu, 0, 0));
    assert_eq!(txt_to_byte("#  #"), booleans_to_byte(&emu, 0, 1));
    assert_eq!(txt_to_byte("####"), booleans_to_byte(&emu, 0, 2));
    assert_eq!(txt_to_byte("#  #"), booleans_to_byte(&emu, 0, 3));
    assert_eq!(txt_to_byte("####"), booleans_to_byte(&emu, 0, 4));
    assert_eq!(true, emu.draw);
    assert_eq!(0x00, emu.v[0x0f]);
    assert_eq!(0x0000 + 2, emu.pc);
}

#[test]
fn test_opcode_dxyn_draw_font_9() {
    let mut emu = Emu::new();
    //given
    let fchar = 0x9;
    emu.ram_idx = 0x0000 + (fchar as u16) * 5;
    emu.pc = 0x0000;
    //when
    emu.opcode = 0xd005;
    emu.decode_and_execute_opcode().unwrap();
    //then
    assert_eq!(txt_to_byte("####"), booleans_to_byte(&emu, 0, 0));
    assert_eq!(txt_to_byte("#  #"), booleans_to_byte(&emu, 0, 1));
    assert_eq!(txt_to_byte("####"), booleans_to_byte(&emu, 0, 2));
    assert_eq!(txt_to_byte("   #"), booleans_to_byte(&emu, 0, 3));
    assert_eq!(txt_to_byte("####"), booleans_to_byte(&emu, 0, 4));
    assert_eq!(true, emu.draw);
    assert_eq!(0x00, emu.v[0x0f]);
    assert_eq!(0x0000 + 2, emu.pc);
}

#[test]
#[allow(non_snake_case)]
fn test_opcode_dxyn_draw_font_A() {
    let mut emu = Emu::new();
    //given
    let fchar = 0xA;
    emu.ram_idx = 0x0000 + (fchar as u16) * 5;
    emu.pc = 0x0000;
    //when
    emu.opcode = 0xd005;
    emu.decode_and_execute_opcode().unwrap();
    //then
    assert_eq!(txt_to_byte("####"), booleans_to_byte(&emu, 0, 0));
    assert_eq!(txt_to_byte("#  #"), booleans_to_byte(&emu, 0, 1));
    assert_eq!(txt_to_byte("####"), booleans_to_byte(&emu, 0, 2));
    assert_eq!(txt_to_byte("#  #"), booleans_to_byte(&emu, 0, 3));
    assert_eq!(txt_to_byte("#  #"), booleans_to_byte(&emu, 0, 4));
    assert_eq!(true, emu.draw);
    assert_eq!(0x00, emu.v[0x0f]);
    assert_eq!(0x0000 + 2, emu.pc);
}

#[test]
#[allow(non_snake_case)]
fn test_opcode_dxyn_draw_font_B() {
    let mut emu = Emu::new();
    //given
    let fchar = 0xB;
    emu.ram_idx = 0x0000 + (fchar as u16) * 5;
    emu.pc = 0x0000;
    //when
    emu.opcode = 0xd005;
    emu.decode_and_execute_opcode().unwrap();
    //then
    assert_eq!(txt_to_byte("### "), booleans_to_byte(&emu, 0, 0));
    assert_eq!(txt_to_byte("#  #"), booleans_to_byte(&emu, 0, 1));
    assert_eq!(txt_to_byte("### "), booleans_to_byte(&emu, 0, 2));
    assert_eq!(txt_to_byte("#  #"), booleans_to_byte(&emu, 0, 3));
    assert_eq!(txt_to_byte("### "), booleans_to_byte(&emu, 0, 4));
    assert_eq!(true, emu.draw);
    assert_eq!(0x00, emu.v[0x0f]);
    assert_eq!(0x0000 + 2, emu.pc);
}

#[test]
#[allow(non_snake_case)]
fn test_opcode_dxyn_draw_font_C() {
    let mut emu = Emu::new();
    //given
    let fchar = 0xC;
    emu.ram_idx = 0x0000 + (fchar as u16) * 5;
    emu.pc = 0x0000;
    //when
    emu.opcode = 0xd005;
    emu.decode_and_execute_opcode().unwrap();
    //then
    assert_eq!(txt_to_byte("####"), booleans_to_byte(&emu, 0, 0));
    assert_eq!(txt_to_byte("#   "), booleans_to_byte(&emu, 0, 1));
    assert_eq!(txt_to_byte("#   "), booleans_to_byte(&emu, 0, 2));
    assert_eq!(txt_to_byte("#   "), booleans_to_byte(&emu, 0, 3));
    assert_eq!(txt_to_byte("####"), booleans_to_byte(&emu, 0, 4));
    assert_eq!(true, emu.draw);
    assert_eq!(0x00, emu.v[0x0f]);
    assert_eq!(0x0000 + 2, emu.pc);
}

#[test]
#[allow(non_snake_case)]
fn test_opcode_dxyn_draw_font_D() {
    let mut emu = Emu::new();
    //given
    let fchar = 0xD;
    emu.ram_idx = 0x0000 + (fchar as u16) * 5;
    emu.pc = 0x0000;
    //when
    emu.opcode = 0xd005;
    emu.decode_and_execute_opcode().unwrap();
    //then
    assert_eq!(txt_to_byte("### "), booleans_to_byte(&emu, 0, 0));
    assert_eq!(txt_to_byte("#  #"), booleans_to_byte(&emu, 0, 1));
    assert_eq!(txt_to_byte("#  #"), booleans_to_byte(&emu, 0, 2));
    assert_eq!(txt_to_byte("#  #"), booleans_to_byte(&emu, 0, 3));
    assert_eq!(txt_to_byte("### "), booleans_to_byte(&emu, 0, 4));
    assert_eq!(true, emu.draw);
    assert_eq!(0x00, emu.v[0x0f]);
    assert_eq!(0x0000 + 2, emu.pc);
}

#[test]
#[allow(non_snake_case)]
fn test_opcode_dxyn_draw_font_E() {
    let mut emu = Emu::new();
    //given
    let fchar = 0xE;
    emu.ram_idx = 0x0000 + (fchar as u16) * 5;
    emu.pc = 0x0000;
    //when
    emu.opcode = 0xd005;
    emu.decode_and_execute_opcode().unwrap();
    //then
    assert_eq!(txt_to_byte("####"), booleans_to_byte(&emu, 0, 0));
    assert_eq!(txt_to_byte("#   "), booleans_to_byte(&emu, 0, 1));
    assert_eq!(txt_to_byte("####"), booleans_to_byte(&emu, 0, 2));
    assert_eq!(txt_to_byte("#   "), booleans_to_byte(&emu, 0, 3));
    assert_eq!(txt_to_byte("####"), booleans_to_byte(&emu, 0, 4));
    assert_eq!(true, emu.draw);
    assert_eq!(0x00, emu.v[0x0f]);
    assert_eq!(0x0000 + 2, emu.pc);
}

#[test]
#[allow(non_snake_case)]
fn test_opcode_dxyn_draw_font_F() {
    let mut emu = Emu::new();
    //given
    let fchar = 0xF;
    emu.ram_idx = 0x0000 + (fchar as u16) * 5;
    emu.pc = 0x0000;
    //when
    emu.opcode = 0xd005;
    emu.decode_and_execute_opcode().unwrap();
    //then
    assert_eq!(txt_to_byte("####"), booleans_to_byte(&emu, 0, 0));
    assert_eq!(txt_to_byte("#   "), booleans_to_byte(&emu, 0, 1));
    assert_eq!(txt_to_byte("####"), booleans_to_byte(&emu, 0, 2));
    assert_eq!(txt_to_byte("#   "), booleans_to_byte(&emu, 0, 3));
    assert_eq!(txt_to_byte("#   "), booleans_to_byte(&emu, 0, 4));
    assert_eq!(true, emu.draw);
    assert_eq!(0x00, emu.v[0x0f]);
    assert_eq!(0x0000 + 2, emu.pc);
}
