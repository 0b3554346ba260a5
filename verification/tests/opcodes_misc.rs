use chip8::emu::Emu;

#[test]
fn test_opcode_ex9e_key_not_pressed() {
    let mut emu = Emu::new();
    //given
    emu.pc = 0x0000;
    emu.v[2] = 0x0a;
    emu.keys[0x0a] = false;
    //when
    emu.opcode = 0xe29e;
    emu.decode_and_execute_opcode().unwrap();
    //then
    assert_eq!(0x0000 + 2, emu.pc);
}

#[test]
fn test_opcode_ex9e_key_pressed() {
    let mut emu = Emu::new();
    //given
    emu.pc = 0x0000;
    emu.v[2] = 0x0a;
    emu.keys[0x0a] = true;
    //when
    emu.opcode = 0xe29e;
    emu.decode_and_execute_opcode().unwrap();
    //then
    assert_eq!(0x0000 + 4, emu.pc);
}

#[test]
fn test_opcode_exa1_key_not_pressed() {
    let mut emu = Emu::new();
    //given
    emu.pc = 0x0000;
    emu.v[2] = 0x0a;
    emu.keys[0x0a] = false;
    //when
    emu.opcode = 0xe2a1;
    emu.decode_and_execute_opcode().unwrap();
    //then
    assert_eq!(0x0000 + 4, emu.pc);
}

#[test]
fn test_opcode_exa1_key_pressed() {
    let mut emu = Emu::new();
    //given
    emu.pc = 0x0000;
    emu.v[2] = 0x0a;
    emu.keys[0x0a] = true;
    //when
    emu.opcode = 0xe2a1;
    emu.decode_and_execute_opcode().unwrap();
    //then
    assert_eq!(0x0000 + 2, emu.pc);
}

#[test]
fn test_opcode_fx07() {
    let mut emu = Emu::new();
    //given
    emu.pc = 0x0000;
    emu.dt = 0x9a;
    //when
    emu.opcode = 0xf207;
    emu.decode_and_execute_opcode().unwrap();
    //then
    assert_eq!(0x9a, emu.v[0x02]);
    assert_eq!(0x9a, emu.dt);
    assert_eq!(0x0000 + 2, emu.pc);
}

#[test]
fn test_opcode_fx0a_with_keypress() {
    let mut emu = Emu::new();
    //given
    emu.pc = 0x0000;
    emu.keys[0x0f] = true;
    //when
    emu.opcode = 0xf20a;
    emu.decode_and_execute_opcode().unwrap();
    //then
    assert_eq!(0x0f, emu.v[0x02]);
    assert_eq!(0x0000 + 2, emu.pc);
}

#[test]
fn test_opcode_fx0a_without_keypress() {
    let mut emu = Emu::new();
    //given
    emu.pc = 0x0000;
    //when
    emu.opcode = 0xf20a;
    emu.decode_and_execute_opcode().unwrap();
    //then
    assert_eq!(0x0000 + 0, emu.pc);
}

#[test]
fn test_opcode_fx15() {
    let mut emu = Emu::new();
    //given
    emu.pc = 0x0000;
    emu.v[0x02] = 0x9a;
    //when
    emu.opcode = 0xf215;
    emu.decode_and_execute_opcode().unwrap();
    //then
    assert_eq!(0x9a, emu.v[0x02]);
    assert_eq!(0x9a, emu.dt);
    assert_eq!(0x0000 + 2, emu.pc);
}

#[test]
fn test_opcode_fx18() {
    let mut emu = Emu::new();
    //given
    emu.pc = 0x0000;
    emu.v[0x02] = 0x9a;
    //when
    emu.opcode = 0xf218;
    emu.decode_and_execute_opcode().unwrap();
    //then
    assert_eq!(0x9a, emu.v[0x02]);
    assert_eq!(0x9a, emu.st);
    assert_eq!(0x0000 + 2, emu.pc);
}

#[test]
fn test_opcode_fx1e_without_overflow() {
    let mut emu = Emu::new();
    //given
    emu.pc = 0x0000;
    emu.ram_idx = 0x222;
    emu.v[0x02] = 0xab;
    //when
    emu.opcode = 0xf21e;
    emu.decode_and_execute_opcode().unwrap();
    //then
    assert_eq!(0x2cd, 0x222 + 0xab);
    assert_eq!(0x2cd, emu.ram_idx);
    assert_eq!(0xab, emu.v[0x02]);
    assert_eq!(0x00, emu.v[0x0f]);
    assert_eq!(0x0000 + 2, emu.pc);
}

#[test]
fn test_opcode_fx1e_with_overflow() {
    let mut emu = Emu::new();
    //given
    emu.pc = 0x0000;
    emu.ram_idx = 0xfff;
    emu.v[0x02] = 0xab;
    //when
    emu.opcode = 0xf21e;
    emu.decode_and_execute_opcode().unwrap();
    //then
    let wrap_mod = (0xfff + 0xab) % (0xfff + 0x001);
    assert_eq!(0x0aa, wrap_mod);
    assert_eq!(0x0aa, emu.ram_idx);
    assert_eq!(0xab, emu.v[0x02]);
    assert_eq!(0x01, emu.v[0x0f]);
    assert_eq!(0x0000 + 2, emu.pc);
}

#[test]
fn test_opcode_fx29() {
    let mut emu = Emu::new();
    //given
    emu.pc = 0x0000;
    emu.ram_idx = 0xfff;
    emu.v[0x03] = 0x0a;
    //when
    emu.opcode = 0xf329;
    emu.decode_and_execute_opcode().unwrap();
    //then
    assert_eq!(0x0000 + (0x0a * 5), emu.ram_idx);
    assert_eq!(0x0a, emu.v[0x03]);
    assert_eq!(0x0000 + 2, emu.pc);
}

#[test]
fn test_opcode_fx33() {
    let mut emu = Emu::new();
    //given
    emu.pc = 0x0000;
    emu.ram_idx = 0xbbb;
    emu.v[0x02] = 0x7b;
    //when
    emu.opcode = 0xf233;
    emu.decode_and_execute_opcode().unwrap();
    //then
    assert_eq!(0x7b, 123);
    assert_eq!(0x7b, emu.v[0x02]);
    assert_eq!(1, emu.ram[(emu.ram_idx + 0) as usize]);
    assert_eq!(2, emu.ram[(emu.ram_idx + 1) as usize]);
    assert_eq!(3, emu.ram[(emu.ram_idx + 2) as usize]);
    assert_eq!(0x0000 + 2, emu.pc);
}

#[test]
fn test_opcode_fx55() {
    let mut emu = Emu::new();
    //given
    emu.pc = 0x0000;
    emu.ram_idx = 0x333;
    emu.v[0x00] = 0x0a;
    emu.v[0x01] = 0x0b;
    emu.v[0x02] = 0x0c;
    //when
    emu.opcode = 0xf355;
    emu.decode_and_execute_opcode().unwrap();
    //then
    assert_eq!(0x0a, emu.ram[(emu.ram_idx + 0) as usize]);
    assert_eq!(0x0b, emu.ram[(emu.ram_idx + 1) as usize]);
    assert_eq!(0x0c, emu.ram[(emu.ram_idx + 2) as usize]);
    assert_eq!(0x0000 + 2, emu.pc);
}

#[test]
fn test_opcode_fx65() {
    let mut emu = Emu::new();
    //given
    emu.pc = 0x0000;
    emu.ram_idx = 0x333;
    emu.ram[(emu.ram_idx + 0) as usize] = 0x0a;
    emu.ram[(emu.ram_idx + 1) as usize] = 0x0b;
    emu.ram[(emu.ram_idx + 2) as usize] = 0x0c;
    //when
    emu.opcode = 0xf365;
    emu.decode_and_execute_opcode().unwrap();
    //then
    assert_eq!(0x0a, emu.v[0]);
    assert_eq!(0x0b, emu.v[1]);
    assert_eq!(0x0c, emu.v[2]);
    assert_eq!(0x0000 + 2, emu.pc);
}
