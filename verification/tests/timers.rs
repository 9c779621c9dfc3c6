use chip8::cpu::Chip8;
use chip8::keypad::Keypad;
use chip8::timers::{tick, TICK_RATE};

#[test]
fn delay_timer_counts_down_to_zero_and_stays() {
    let mut chip = Chip8::new(0);
    chip.load_to_register(1, 2);
    chip.set_delay_timer(1);
    assert_eq!(chip.delay_timer(), 2);
    chip.tick_timers();
    assert_eq!(chip.delay_timer(), 1);
    chip.tick_timers();
    assert_eq!(chip.delay_timer(), 0);
    chip.tick_timers();
    assert_eq!(chip.delay_timer(), 0);
}

#[test]
fn sound_timer_counts_down_to_zero_and_stays() {
    let mut chip = Chip8::new(0);
    chip.load_to_register(1, 2);
    chip.set_sound_timer(1);
    assert!(chip.tone_active());
    chip.tick_timers();
    assert_eq!(chip.sound_timer(), 1);
    assert!(chip.tone_active());
    chip.tick_timers();
    assert_eq!(chip.sound_timer(), 0);
    assert!(!chip.tone_active());
    chip.tick_timers();
    assert_eq!(chip.sound_timer(), 0);
    assert!(!chip.tone_active());
}

#[test]
fn timers_count_independently() {
    let mut chip = Chip8::new(0);
    chip.load_to_register(1, 3);
    chip.load_to_register(2, 1);
    chip.set_delay_timer(1);
    chip.set_sound_timer(2);
    chip.tick_timers();
    assert_eq!(chip.delay_timer(), 2);
    assert_eq!(chip.sound_timer(), 0);
    chip.tick_timers();
    assert_eq!(chip.delay_timer(), 1);
    assert_eq!(chip.sound_timer(), 0);
}

#[test]
fn tick_touches_nothing_but_the_timers() {
    let mut chip = Chip8::new(0);
    chip.load_to_register(1, 9);
    chip.set_delay_timer(1);
    chip.load_i(0x321);
    chip.tick_timers();
    assert_eq!(chip.register(1), 9);
    assert_eq!(chip.i_register(), 0x321);
    assert_eq!(chip.program_counter(), 0x200);
    assert_eq!(chip.stack_pointer(), 0);
}

#[test]
fn timers_do_not_count_with_instructions() {
    let keys = Keypad::new();
    let mut chip = Chip8::new(0);
    assert_eq!(chip.execute(0x6105, &keys), Ok(()));
    assert_eq!(chip.execute(0xF115, &keys), Ok(()));
    assert_eq!(chip.execute(0xF118, &keys), Ok(()));
    for _ in 0..100 {
        assert_eq!(chip.execute(0x7201, &keys), Ok(()));
    }
    assert_eq!(chip.delay_timer(), 5);
    assert_eq!(chip.sound_timer(), 5);
}

#[test]
fn load_delay_timer_reads_the_timer() {
    let mut chip = Chip8::new(0);
    chip.load_to_register(1, 0x30);
    chip.set_delay_timer(1);
    chip.tick_timers();
    chip.load_delay_timer(2);
    assert_eq!(chip.register(2), 0x2F);
}

#[test]
fn tick_of_a_register_value() {
    assert_eq!(tick(0), 0);
    assert_eq!(tick(1), 0);
    assert_eq!(tick(2), 1);
    assert_eq!(tick(255), 254);
    assert_eq!(TICK_RATE, 60);
}

#[test]
fn full_timer_needs_255_ticks() {
    let mut chip = Chip8::new(0);
    chip.load_to_register(1, 255);
    chip.set_delay_timer(1);
    for _ in 0..254 {
        chip.tick_timers();
    }
    assert_eq!(chip.delay_timer(), 1);
    chip.tick_timers();
    assert_eq!(chip.delay_timer(), 0);
}
