use chip8::machine::{fontset, Chip8};
use chip8::model::Fault;

#[test]
fn new_machine_is_zeroed_with_font_and_origin() {
    let m = Chip8::new();
    assert_eq!(m.pc, 0x200);
    assert_eq!(m.index, 0);
    assert_eq!(m.sp, 0);
    assert_eq!(m.v, [0u8; 16]);
    assert_eq!(m.stack, [0u16; 16]);
    assert_eq!(m.delay_timer, 0);
    assert_eq!(m.sound_timer, 0);
    assert_eq!(m.keys, [false; 16]);
    assert!(!m.draw_flag);
    assert!(m.display.iter().all(|p| *p == 0));
    let glyphs: [u8; 80] = fontset();
    for a in 0usize..4096 {
        let expected: u8 = if (0x50..0xA0).contains(&a) { glyphs[a - 0x50] } else { 0 };
        assert_eq!(m.memory[a], expected);
    }
    assert_eq!(&m.memory[0x50..0x55], &[0xF0, 0x90, 0x90, 0x90, 0xF0]);
    assert_eq!(&m.memory[0x9B..0xA0], &[0xF0, 0x80, 0xF0, 0x80, 0x80]);
}

#[test]
fn full_size_rom_fills_memory_and_spares_the_font() {
    let mut rom: Vec<u8> = Vec::new();
    for i in 0usize..3584 {
        rom.push((i % 251) as u8 + 1);
    }
    let mut m = Chip8::new();
    let font_before: Vec<u8> = m.memory[0x50..0xA0].to_vec();
    assert!(m.load_rom(&rom));
    assert_eq!(&m.memory[0x200..0x1000], &rom[..]);
    assert_eq!(&m.memory[0x50..0xA0], &font_before[..]);
    assert!(m.memory[..0x50].iter().all(|b| *b == 0));
    assert!(m.memory[0xA0..0x200].iter().all(|b| *b == 0));
    assert_eq!(m.pc, 0x200);
}

#[test]
fn oversized_rom_is_truncated() {
    let mut rom: Vec<u8> = Vec::new();
    for i in 0usize..4000 {
        rom.push((i % 251) as u8 + 1);
    }
    let mut m = Chip8::new();
    assert!(!m.load_rom(&rom));
    assert_eq!(&m.memory[0x200..0x1000], &rom[..3584]);
    assert_eq!(&m.memory[0x50..0x55], &[0xF0, 0x90, 0x90, 0x90, 0xF0]);
}

#[test]
fn short_rom_leaves_the_rest_of_memory() {
    let mut m = Chip8::new();
    m.memory[0x203] = 0x77;
    assert!(m.load_rom(&[1, 2, 3]));
    assert_eq!(&m.memory[0x200..0x204], &[1, 2, 3, 0x77]);
    assert!(m.load_rom(&[]));
    assert_eq!(&m.memory[0x200..0x204], &[1, 2, 3, 0x77]);
}

#[test]
fn fetch_reads_high_byte_first() {
    let mut m = Chip8::new();
    assert!(m.load_rom(&[0xAB, 0xCD, 0x12, 0x34]));
    assert_eq!(m.fetch_opcode(), 0xABCD);
    assert_eq!(m.pc, 0x200);
    m.pc = 0x202;
    assert_eq!(m.fetch_opcode(), 0x1234);
}

#[test]
fn load_index_and_add_to_index() {
    let mut m = Chip8::new();
    m.mvi(0xA123);
    assert_eq!(m.index, 0x123);
    m.v[2] = 0x10;
    m.adi(0xF21E);
    assert_eq!(m.index, 0x133);
    assert_eq!(m.pc, 0x204);
}

#[test]
fn add_to_index_wraps_at_sixteen_bits() {
    let mut m = Chip8::new();
    m.index = 0xFFFF;
    m.v[0] = 2;
    m.adi(0xF01E);
    assert_eq!(m.index, 1);
}

#[test]
fn font_pointer_addresses_the_glyph() {
    let mut m = Chip8::new();
    m.v[3] = 0xA;
    m.font(0xF329);
    assert_eq!(m.index, 0x50 + 50);
    m.v[3] = 0xFF;
    m.font(0xF329);
    assert_eq!(m.index, 0x50 + 255 * 5);
    assert_eq!(m.pc, 0x204);
}

#[test]
fn bcd_stores_three_digits() {
    let mut m = Chip8::new();
    m.v[7] = 254;
    m.index = 0x400;
    assert_eq!(m.bcd(0xF733), Ok(()));
    assert_eq!(&m.memory[0x400..0x403], &[2, 5, 4]);
    m.v[7] = 7;
    assert_eq!(m.bcd(0xF733), Ok(()));
    assert_eq!(&m.memory[0x400..0x403], &[0, 0, 7]);
    assert_eq!(m.pc, 0x204);
}

#[test]
fn bcd_beyond_memory_is_a_fault() {
    let mut m = Chip8::new();
    m.v[0] = 123;
    m.index = 4094;
    assert_eq!(m.bcd(0xF033), Err(Fault::Memory));
    assert_eq!(m.memory[4094], 0);
    assert_eq!(m.pc, 0x200);
    m.index = 4093;
    assert_eq!(m.bcd(0xF033), Ok(()));
    assert_eq!(&m.memory[4093..4096], &[1, 2, 3]);
}

#[test]
fn register_dump_stores_v0_to_vx_inclusive() {
    let mut m = Chip8::new();
    for i in 0usize..16 {
        m.v[i] = 0x10 + i as u8;
    }
    m.index = 0x300;
    assert_eq!(m.str(0xF355), Ok(()));
    assert_eq!(&m.memory[0x300..0x305], &[0x10, 0x11, 0x12, 0x13, 0]);
    assert_eq!(m.index, 0x300);
    assert_eq!(m.pc, 0x202);
}

#[test]
fn register_load_reads_v0_to_vx_inclusive() {
    let mut m = Chip8::new();
    m.memory[0x300] = 9;
    m.memory[0x301] = 8;
    m.memory[0x302] = 7;
    m.v[2] = 0x55;
    m.index = 0x300;
    assert_eq!(m.ldr(0xF165), Ok(()));
    assert_eq!(&m.v[0..3], &[9, 8, 0x55]);
    assert_eq!(m.index, 0x300);
    assert_eq!(m.pc, 0x202);
}

#[test]
fn register_block_beyond_memory_is_a_fault() {
    let mut m = Chip8::new();
    m.v[0] = 1;
    m.index = 4095;
    assert_eq!(m.str(0xF155), Err(Fault::Memory));
    assert_eq!(m.memory[4095], 0);
    assert_eq!(m.ldr(0xF165), Err(Fault::Memory));
    assert_eq!(m.str(0xF055), Ok(()));
    assert_eq!(m.memory[4095], 1);
}
