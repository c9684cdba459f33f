use chip8::machine::Chip8;
use chip8::model::Fault;

#[test]
fn timers_count_down_to_zero_and_stay() {
    let mut m = Chip8::new();
    m.delay_timer = 5;
    m.sound_timer = 5;
    for left in [4u8, 3, 2, 1, 0] {
        assert_eq!(m.cycle(), Ok(()));
        assert_eq!(m.delay_timer, left);
        assert_eq!(m.sound_timer, left);
    }
    for _ in 0..3 {
        assert_eq!(m.cycle(), Ok(()));
        assert_eq!(m.delay_timer, 0);
        assert_eq!(m.sound_timer, 0);
    }
    assert_eq!(m.pc, 0x200 + 16);
}

#[test]
fn timers_count_down_independently() {
    let mut m = Chip8::new();
    m.delay_timer = 1;
    m.sound_timer = 3;
    assert_eq!(m.cycle(), Ok(()));
    assert_eq!((m.delay_timer, m.sound_timer), (0, 2));
    assert_eq!(m.cycle(), Ok(()));
    assert_eq!((m.delay_timer, m.sound_timer), (0, 1));
}

#[test]
fn set_and_read_delay_timer() {
    let mut m = Chip8::new();
    m.v[1] = 40;
    m.sound_timer = 9;
    m.sdelay(0xF115);
    assert_eq!(m.delay_timer, 40);
    assert_eq!(m.v[1], 40);
    assert_eq!(m.sound_timer, 9);
    m.gdelay(0xF207);
    assert_eq!(m.v[2], 40);
    assert_eq!(m.pc, 0x204);
}

#[test]
fn set_sound_timer() {
    let mut m = Chip8::new();
    m.v[1] = 12;
    m.ssound(0xF118);
    assert_eq!(m.sound_timer, 12);
    assert_eq!(m.delay_timer, 0);
    assert_eq!(m.pc, 0x202);
}

#[test]
fn timer_set_in_a_cycle_has_ticked_once_after_it() {
    let mut m = Chip8::new();
    assert!(m.load_rom(&[0x60, 0x0A, 0xF0, 0x15, 0xF0, 0x18]));
    for _ in 0..3 {
        assert_eq!(m.cycle(), Ok(()));
    }
    assert_eq!(m.delay_timer, 8);
    assert_eq!(m.sound_timer, 9);
}

#[test]
fn faulting_cycle_changes_nothing() {
    let mut m = Chip8::new();
    assert!(m.load_rom(&[0x00, 0xEE]));
    m.delay_timer = 3;
    m.sound_timer = 4;
    assert_eq!(m.cycle(), Err(Fault::StackUnderflow));
    assert_eq!(m.pc, 0x200);
    assert_eq!(m.sp, 0);
    assert_eq!(m.delay_timer, 3);
    assert_eq!(m.sound_timer, 4);
}
