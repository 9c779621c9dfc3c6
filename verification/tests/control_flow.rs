use chip8::cpu::Chip8;
use chip8::keypad::Keypad;

#[test]
fn new_machine_starts_at_the_program_region() {
    let chip = Chip8::new(0);
    assert_eq!(chip.program_counter(), 0x200);
    assert_eq!(chip.stack_pointer(), 0);
    assert_eq!(chip.i_register(), 0);
    assert_eq!(chip.delay_timer(), 0);
    assert_eq!(chip.sound_timer(), 0);
    assert_eq!(chip.waiting_register(), None);
    for x in 0..16u8 {
        assert_eq!(chip.register(x), 0);
    }
    assert_eq!(chip.memory().address(0), Ok(0xF0));
    assert_eq!(chip.memory().address(0x200), Ok(0));
    assert_eq!(chip.display().pixel(0, 0), Some(false));
}

#[test]
fn jump_replaces_the_program_counter() {
    let mut chip = Chip8::new(0);
    chip.jump_to(0x456);
    assert_eq!(chip.program_counter(), 0x456);
    let keys = Keypad::new();
    assert_eq!(chip.execute(0x1ABC, &keys), Ok(()));
    assert_eq!(chip.program_counter(), 0xABC);
}

#[test]
fn jump_with_offset_adds_v0() {
    let mut chip = Chip8::new(0);
    chip.load_to_register(0, 0x10);
    chip.jump_with_offset(0x300);
    assert_eq!(chip.program_counter(), 0x310);
    chip.load_to_register(0, 0xFF);
    chip.jump_with_offset(0xFFF);
    assert_eq!(chip.program_counter(), 0x10FE);
}

#[test]
fn call_then_return_restores_the_program_counter() {
    let mut chip = Chip8::new(0);
    chip.jump_to(0x234);
    chip.call_subroutine(0x400);
    assert_eq!(chip.program_counter(), 0x400);
    assert_eq!(chip.stack_pointer(), 1);
    chip.return_from_subroutine();
    assert_eq!(chip.program_counter(), 0x234);
    assert_eq!(chip.stack_pointer(), 0);
}

#[test]
fn call_then_return_through_execute() {
    let keys = Keypad::new();
    let mut chip = Chip8::new(0);
    assert_eq!(chip.execute(0x2500, &keys), Ok(()));
    assert_eq!(chip.program_counter(), 0x500);
    assert_eq!(chip.execute(0x00EE, &keys), Ok(()));
    assert_eq!(chip.program_counter(), 0x200);
    assert_eq!(chip.stack_pointer(), 0);
}

#[test]
fn sixteen_nested_calls_return_in_reverse_order() {
    let mut chip = Chip8::new(0);
    for depth in 0..16u16 {
        chip.jump_to(0x202 + 2 * depth);
        chip.call_subroutine(0x300 + 0x10 * depth);
        assert_eq!(chip.stack_pointer() as u16, (depth + 1) % 16);
    }
    assert_eq!(chip.stack_pointer(), 0);
    for depth in (0..16u16).rev() {
        chip.return_from_subroutine();
        assert_eq!(chip.program_counter(), 0x202 + 2 * depth);
    }
    assert_eq!(chip.stack_pointer(), 0);
}

#[test]
fn seventeenth_nested_call_overwrites_the_oldest_frame() {
    let mut chip = Chip8::new(0);
    for depth in 0..17u16 {
        chip.jump_to(0x202 + 2 * depth);
        chip.call_subroutine(0x300 + 0x10 * depth);
    }
    assert_eq!(chip.stack_pointer(), 1);
    for depth in (1..17u16).rev() {
        chip.return_from_subroutine();
        assert_eq!(chip.program_counter(), 0x202 + 2 * depth);
    }
    chip.return_from_subroutine();
    assert_eq!(chip.program_counter(), 0x202 + 2 * 16);
    assert_eq!(chip.stack_pointer(), 0);
}

#[test]
fn return_on_a_fresh_machine_is_defined() {
    let mut chip = Chip8::new(0);
    chip.return_from_subroutine();
    assert_eq!(chip.program_counter(), 0);
    assert_eq!(chip.stack_pointer(), 15);
}

#[test]
fn sys_has_no_effect() {
    let keys = Keypad::new();
    let mut chip = Chip8::new(0);
    chip.load_to_register(3, 9);
    assert_eq!(chip.execute(0x0123, &keys), Ok(()));
    assert_eq!(chip.execute(0x00E0, &keys), Ok(()));
    assert_eq!(chip.program_counter(), 0x200);
    assert_eq!(chip.register(3), 9);
    assert_eq!(chip.stack_pointer(), 0);
}

#[test]
fn skip_if_equal_skips_on_equality_only() {
    let mut chip = Chip8::new(0);
    chip.load_to_register(1, 0x42);
    chip.skip_if_equal(1, 0x42);
    assert_eq!(chip.program_counter(), 0x202);
    chip.skip_if_equal(1, 0x43);
    assert_eq!(chip.program_counter(), 0x202);
}

#[test]
fn skip_if_not_equal_skips_on_difference_only() {
    let mut chip = Chip8::new(0);
    chip.load_to_register(1, 0x42);
    chip.skip_if_not_equal(1, 0x42);
    assert_eq!(chip.program_counter(), 0x200);
    chip.skip_if_not_equal(1, 0x43);
    assert_eq!(chip.program_counter(), 0x202);
}

#[test]
fn register_skips_compare_two_registers() {
    let mut chip = Chip8::new(0);
    chip.load_to_register(1, 7);
    chip.load_to_register(2, 7);
    chip.load_to_register(3, 8);
    chip.skip_if_registers_equal(1, 2);
    assert_eq!(chip.program_counter(), 0x202);
    chip.skip_if_registers_equal(1, 3);
    assert_eq!(chip.program_counter(), 0x202);
    chip.skip_if_registers_not_equal(1, 2);
    assert_eq!(chip.program_counter(), 0x202);
    chip.skip_if_registers_not_equal(1, 3);
    assert_eq!(chip.program_counter(), 0x204);
}

#[test]
fn skips_through_execute() {
    let keys = Keypad::new();
    let mut chip = Chip8::new(0);
    assert_eq!(chip.execute(0x6105, &keys), Ok(()));
    assert_eq!(chip.execute(0x3105, &keys), Ok(()));
    assert_eq!(chip.program_counter(), 0x202);
    assert_eq!(chip.execute(0x4105, &keys), Ok(()));
    assert_eq!(chip.program_counter(), 0x202);
    assert_eq!(chip.execute(0x5110, &keys), Ok(()));
    assert_eq!(chip.program_counter(), 0x204);
    assert_eq!(chip.execute(0x9120, &keys), Ok(()));
    assert_eq!(chip.program_counter(), 0x206);
}

#[test]
fn program_counter_wraps_in_sixteen_bits() {
    let mut chip = Chip8::new(0);
    chip.jump_to(0xFFFE);
    chip.skip_if_equal(0, 0);
    assert_eq!(chip.program_counter(), 0x0000);
    chip.load_to_register(0, 0x02);
    chip.jump_with_offset(0xFFFF);
    assert_eq!(chip.program_counter(), 0x0001);
}

#[test]
fn load_i_sets_the_address_register() {
    let keys = Keypad::new();
    let mut chip = Chip8::new(0);
    chip.load_i(0x123);
    assert_eq!(chip.i_register(), 0x123);
    assert_eq!(chip.execute(0xAFED, &keys), Ok(()));
    assert_eq!(chip.i_register(), 0xFED);
}

#[test]
fn add_to_i_register_adds_in_twelve_bits() {
    let mut chip = Chip8::new(0);
    chip.load_i(0x300);
    chip.load_to_register(2, 0x21);
    chip.add_to_i_register(2);
    assert_eq!(chip.i_register(), 0x321);
    assert_eq!(chip.memory().address(0x300), Ok(0));
    chip.load_i(0xFFF);
    chip.load_to_register(2, 0x02);
    chip.add_to_i_register(2);
    assert_eq!(chip.i_register(), 0x001);
}

#[test]
fn set_i_register_points_at_the_glyph() {
    let mut chip = Chip8::new(0);
    for digit in 0..16u8 {
        chip.load_to_register(4, digit);
        chip.set_i_register(4);
        assert_eq!(chip.i_register(), 5 * digit as u16);
    }
    chip.load_to_register(4, 0x1A);
    chip.set_i_register(4);
    assert_eq!(chip.i_register(), 50);
    assert_eq!(chip.memory().address(chip.i_register() as usize), Ok(0xF0));
    assert_eq!(chip.memory().address(chip.i_register() as usize + 4), Ok(0x90));
}
