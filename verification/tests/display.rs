use chip8::machine::Chip8;
use chip8::model::Fault;

const GLYPH_ZERO: [u8; 5] = [0xF0, 0x90, 0x90, 0x90, 0xF0];

fn lit_pixels(m: &Chip8) -> Vec<(usize, usize)> {
    let mut lit: Vec<(usize, usize)> = Vec::new();
    for y in 0usize..32 {
        for x in 0usize..64 {
            if m.display[x + y * 64] == 1 {
                lit.push((x, y));
            }
        }
    }
    lit
}

#[test]
fn drawing_twice_restores_the_display() {
    let mut m = Chip8::new();
    m.v[0] = 10;
    m.v[1] = 4;
    m.index = 0x50 + 5 * 0xB;
    m.display[12 + 5 * 64] = 1;
    m.display[40 + 20 * 64] = 1;
    let before: Vec<u8> = m.display.to_vec();
    assert_eq!(m.sprite(0xD015), Ok(()));
    assert_ne!(m.display.to_vec(), before);
    assert_eq!(m.sprite(0xD015), Ok(()));
    assert_eq!(m.display.to_vec(), before);
    assert_eq!(m.pc, 0x204);
}

#[test]
fn second_drawing_on_a_blank_screen_collides() {
    let mut m = Chip8::new();
    m.index = 0x50;
    assert_eq!(m.sprite(0xD015), Ok(()));
    assert_eq!(m.v[0xF], 0);
    assert_eq!(m.sprite(0xD015), Ok(()));
    assert_eq!(m.v[0xF], 1);
    assert!(lit_pixels(&m).is_empty());
}

#[test]
fn second_drawing_over_set_pixels_leaves_flag_clear() {
    let mut m = Chip8::new();
    m.memory[0x300] = 0xC0;
    m.index = 0x300;
    m.display[0] = 1;
    m.display[1] = 1;
    assert_eq!(m.sprite(0xD011), Ok(()));
    assert_eq!(m.v[0xF], 1);
    assert!(lit_pixels(&m).is_empty());
    assert_eq!(m.sprite(0xD011), Ok(()));
    assert_eq!(m.v[0xF], 0);
    assert_eq!(lit_pixels(&m), vec![(0, 0), (1, 0)]);
}

#[test]
fn sprite_wraps_columns_at_the_right_edge() {
    let mut m = Chip8::new();
    m.memory[0x300] = 0xFF;
    m.index = 0x300;
    m.v[0] = 60;
    m.v[1] = 0;
    assert_eq!(m.sprite(0xD011), Ok(()));
    assert_eq!(
        lit_pixels(&m),
        vec![(0, 0), (1, 0), (2, 0), (3, 0), (60, 0), (61, 0), (62, 0), (63, 0)]
    );
    assert_eq!(m.v[0xF], 0);
    assert!(m.draw_flag);
}

#[test]
fn sprite_wraps_rows_at_the_bottom_edge() {
    let mut m = Chip8::new();
    m.memory[0x300] = 0x80;
    m.memory[0x301] = 0x40;
    m.index = 0x300;
    m.v[0] = 0;
    m.v[1] = 31;
    assert_eq!(m.sprite(0xD012), Ok(()));
    assert_eq!(lit_pixels(&m), vec![(1, 0), (0, 31)]);
}

#[test]
fn sprite_origin_is_taken_modulo_the_display() {
    let mut m = Chip8::new();
    m.memory[0x300] = 0x80;
    m.index = 0x300;
    m.v[0] = 64 + 7;
    m.v[1] = 32 + 3;
    assert_eq!(m.sprite(0xD011), Ok(()));
    assert_eq!(lit_pixels(&m), vec![(7, 3)]);
}

#[test]
fn collision_flag_is_sticky_within_one_draw() {
    let mut m = Chip8::new();
    m.memory[0x300] = 0x80;
    m.memory[0x301] = 0x80;
    m.memory[0x302] = 0x80;
    m.index = 0x300;
    m.display[0] = 1;
    assert_eq!(m.sprite(0xD003), Ok(()));
    assert_eq!(m.v[0xF], 1);
    assert_eq!(lit_pixels(&m), vec![(0, 1), (0, 2)]);
}

#[test]
fn flag_is_cleared_before_a_draw_without_collision() {
    let mut m = Chip8::new();
    m.v[0xF] = 1;
    m.v[0] = 8;
    m.index = 0x50;
    assert_eq!(m.sprite(0xD005), Ok(()));
    assert_eq!(m.v[0xF], 0);
}

#[test]
fn sprite_of_no_rows_draws_nothing_but_marks_the_display() {
    let mut m = Chip8::new();
    m.index = 0xFFFF;
    m.v[0xF] = 1;
    assert_eq!(m.sprite(0xD000), Ok(()));
    assert!(lit_pixels(&m).is_empty());
    assert!(m.draw_flag);
    assert_eq!(m.v[0xF], 0);
    assert_eq!(m.pc, 0x202);
}

#[test]
fn sprite_beyond_memory_is_a_fault() {
    let mut m = Chip8::new();
    m.index = 4094;
    m.v[0xF] = 1;
    assert_eq!(m.sprite(0xD003), Err(Fault::Memory));
    assert_eq!(m.v[0xF], 1);
    assert!(!m.draw_flag);
    assert_eq!(m.pc, 0x200);
    assert_eq!(m.sprite(0xD002), Ok(()));
}

#[test]
fn clear_display_zeroes_every_pixel() {
    let mut m = Chip8::new();
    m.index = 0x50;
    assert_eq!(m.sprite(0xD005), Ok(()));
    assert!(!lit_pixels(&m).is_empty());
    m.cls();
    assert!(lit_pixels(&m).is_empty());
    assert_eq!(m.pc, 0x204);
}

#[test]
fn program_draws_the_first_glyph() {
    let rom: [u8; 8] = [0x60, 0x05, 0x61, 0x05, 0xA0, 0x50, 0xD0, 0x15];
    let mut m = Chip8::new();
    assert!(m.load_rom(&rom));
    for _ in 0..4 {
        assert_eq!(m.cycle(), Ok(()));
    }
    assert_eq!(m.v[0], 5);
    assert_eq!(m.v[1], 5);
    assert_eq!(m.index, 0x50);
    assert_eq!(m.pc, 0x208);
    assert_eq!(m.v[0xF], 0);
    assert!(m.draw_flag);
    for y in 0usize..32 {
        for x in 0usize..64 {
            let inside: bool = (5..10).contains(&y) && (5..13).contains(&x);
            let expected: u8 = if inside && (GLYPH_ZERO[y - 5] >> (7 - (x - 5))) & 1 == 1 {
                1
            } else {
                0
            };
            assert_eq!(m.display[x + y * 64], expected);
        }
    }
}
