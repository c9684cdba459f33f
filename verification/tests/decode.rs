use chip8::decode::{family, field_n, field_nn, field_nnn, field_x, field_y};
use chip8::machine::Chip8;

#[test]
fn opcode_fields() {
    assert_eq!(family(0xABCD), 0xA);
    assert_eq!(field_x(0xABCD), 0xB);
    assert_eq!(field_y(0xABCD), 0xC);
    assert_eq!(field_n(0xABCD), 0xD);
    assert_eq!(field_nn(0xABCD), 0xCD);
    assert_eq!(field_nnn(0xABCD), 0xBCD);
    assert_eq!(family(0x0FFF), 0);
    assert_eq!(family(0xF000), 0xF);
    assert_eq!(field_nnn(0xF000), 0);
}

#[test]
fn dispatch_reaches_every_family() {
    let mut m = Chip8::new();
    assert_eq!(m.decode_execute(0x6A12), Ok(()));
    assert_eq!(m.v[0xA], 0x12);
    assert_eq!(m.decode_execute(0x7A01), Ok(()));
    assert_eq!(m.v[0xA], 0x13);
    assert_eq!(m.decode_execute(0x8BA0), Ok(()));
    assert_eq!(m.v[0xB], 0x13);
    assert_eq!(m.decode_execute(0x8BA4), Ok(()));
    assert_eq!(m.v[0xB], 0x26);
    assert_eq!(m.decode_execute(0x8BA5), Ok(()));
    assert_eq!((m.v[0xB], m.v[0xF]), (0x13, 1));
    assert_eq!(m.decode_execute(0x8BA7), Ok(()));
    assert_eq!((m.v[0xB], m.v[0xF]), (0, 1));
    assert_eq!(m.decode_execute(0x8A06), Ok(()));
    assert_eq!((m.v[0xA], m.v[0xF]), (0x09, 1));
    assert_eq!(m.decode_execute(0x8A0E), Ok(()));
    assert_eq!((m.v[0xA], m.v[0xF]), (0x12, 0));
    assert_eq!(m.decode_execute(0x6B0C), Ok(()));
    assert_eq!(m.decode_execute(0x8AB1), Ok(()));
    assert_eq!(m.v[0xA], 0x1E);
    assert_eq!(m.decode_execute(0x8AB2), Ok(()));
    assert_eq!(m.v[0xA], 0x0C);
    assert_eq!(m.decode_execute(0x8AB3), Ok(()));
    assert_eq!(m.v[0xA], 0);
    assert_eq!(m.pc, 0x200 + 2 * 12);
    assert_eq!(m.decode_execute(0xA321), Ok(()));
    assert_eq!(m.index, 0x321);
    assert_eq!(m.decode_execute(0xFB1E), Ok(()));
    assert_eq!(m.index, 0x32D);
    assert_eq!(m.decode_execute(0xFB33), Ok(()));
    assert_eq!(&m.memory[0x32D..0x330], &[0, 1, 2]);
    assert_eq!(m.decode_execute(0xFB15), Ok(()));
    assert_eq!(m.delay_timer, 0x0C);
    assert_eq!(m.decode_execute(0xFB18), Ok(()));
    assert_eq!(m.sound_timer, 0x0C);
    assert_eq!(m.decode_execute(0xF307), Ok(()));
    assert_eq!(m.v[3], 0x0C);
    assert_eq!(m.decode_execute(0xF329), Ok(()));
    assert_eq!(m.index, 0x50 + 60);
    assert_eq!(m.decode_execute(0xF155), Ok(()));
    assert_eq!(&m.memory[0x8C..0x8E], &[0, 0]);
    assert_eq!(m.decode_execute(0xA050), Ok(()));
    assert_eq!(m.decode_execute(0xF165), Ok(()));
    assert_eq!(&m.v[0..2], &[0xF0, 0x90]);
    assert_eq!(m.decode_execute(0xD125), Ok(()));
    assert!(m.draw_flag);
    assert_eq!(m.decode_execute(0x00E0), Ok(()));
    assert!(m.display.iter().all(|p| *p == 0));
    assert_eq!(m.decode_execute(0x2400), Ok(()));
    assert_eq!(m.pc, 0x400);
    assert_eq!(m.decode_execute(0x00EE), Ok(()));
    assert_eq!(m.pc, 0x200 + 2 * 25);
    assert_eq!(m.decode_execute(0x1234), Ok(()));
    assert_eq!(m.pc, 0x234);
    assert_eq!(m.decode_execute(0xB100), Ok(()));
    assert_eq!(m.pc, 0x1F0);
    assert_eq!(m.decode_execute(0xF00A), Ok(()));
    assert_eq!(m.pc, 0x1F0);
    assert!(m.valid());
}

#[test]
fn validity_is_tested_at_run_time() {
    let mut m = Chip8::new();
    assert!(m.valid());
    m.display[7] = 2;
    assert!(!m.valid());
    m.display[7] = 1;
    assert!(m.valid());
    m.sp = 17;
    assert!(!m.valid());
    m.sp = 1;
    m.stack[0] = 4095;
    assert!(!m.valid());
    m.stack[0] = 4094;
    assert!(m.valid());
    m.stack[1] = 0xFFFF;
    assert!(m.valid());
}

#[test]
fn operations_keep_the_machine_valid() {
    let rom: [u8; 12] = [0x22, 0x06, 0x12, 0x00, 0x00, 0x00, 0x60, 0x3E, 0xA0, 0x50, 0xD0, 0x15];
    let mut m = Chip8::new();
    assert!(m.load_rom(&rom));
    for _ in 0..4 {
        assert_eq!(m.cycle(), Ok(()));
        assert!(m.valid());
    }
    assert_eq!(m.sp, 1);
    assert_eq!(m.pc, 0x20C);
    assert_eq!(m.display[62], 1);
    assert_eq!(m.display[63], 1);
    assert_eq!(m.display[0], 1);
    assert_eq!(m.display[1], 1);
    assert_eq!(m.display[2], 0);
}
