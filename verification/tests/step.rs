use chip8::cpu::Chip8;
use chip8::error::Chip8Error;
use chip8::keypad::Keypad;

fn machine_running(program: &[u8]) -> Chip8 {
    let mut chip = Chip8::new(0);
    for (offset, byte) in program.iter().enumerate() {
        assert_eq!(chip.write_memory(0x200 + offset, *byte), Ok(()));
    }
    chip
}

fn registers(chip: &Chip8) -> Vec<u8> {
    (0..16u8).map(|x| chip.register(x)).collect()
}

#[test]
fn fetch_reads_two_bytes_high_byte_first() {
    let chip = machine_running(&[0x6A, 0x12]);
    assert_eq!(chip.fetch(), Ok(0x6A12));
}

#[test]
fn fetch_past_the_end_fails() {
    let mut chip = Chip8::new(0);
    chip.jump_to(0xFFE);
    assert_eq!(chip.fetch(), Ok(0x0000));
    chip.jump_to(0xFFF);
    assert_eq!(chip.fetch(), Err(Chip8Error::OutOfBounds { addr: 0x1000 }));
    chip.jump_to(0x1000);
    assert_eq!(chip.fetch(), Err(Chip8Error::OutOfBounds { addr: 0x1000 }));
    chip.jump_to(0x10FE);
    assert_eq!(chip.fetch(), Err(Chip8Error::OutOfBounds { addr: 0x10FE }));
}

#[test]
fn fetch_can_read_the_reserved_region() {
    let mut chip = Chip8::new(0);
    chip.jump_to(0x000);
    assert_eq!(chip.fetch(), Ok(0xF090));
}

#[test]
fn step_advances_the_program_counter_by_two() {
    let keys = Keypad::new();
    let mut chip = machine_running(&[0x6A, 0x12, 0x7A, 0x01]);
    assert_eq!(chip.step(&keys), Ok(()));
    assert_eq!(chip.program_counter(), 0x202);
    assert_eq!(chip.register(0xA), 0x12);
    assert_eq!(chip.step(&keys), Ok(()));
    assert_eq!(chip.program_counter(), 0x204);
    assert_eq!(chip.register(0xA), 0x13);
}

#[test]
fn step_over_a_taken_skip_advances_by_four() {
    let keys = Keypad::new();
    let mut chip = machine_running(&[0x30, 0x00, 0x61, 0x01, 0x62, 0x02]);
    assert_eq!(chip.step(&keys), Ok(()));
    assert_eq!(chip.program_counter(), 0x204);
    assert_eq!(chip.step(&keys), Ok(()));
    assert_eq!(chip.register(1), 0);
    assert_eq!(chip.register(2), 2);
    assert_eq!(chip.program_counter(), 0x206);
}

#[test]
fn step_over_a_skip_not_taken_advances_by_two() {
    let keys = Keypad::new();
    let mut chip = machine_running(&[0x40, 0x00, 0x61, 0x01]);
    assert_eq!(chip.step(&keys), Ok(()));
    assert_eq!(chip.program_counter(), 0x202);
    assert_eq!(chip.step(&keys), Ok(()));
    assert_eq!(chip.register(1), 1);
}

#[test]
fn step_jump_replaces_the_program_counter() {
    let keys = Keypad::new();
    let mut chip = machine_running(&[0x13, 0x00]);
    assert_eq!(chip.step(&keys), Ok(()));
    assert_eq!(chip.program_counter(), 0x300);
}

#[test]
fn step_call_and_return_go_on_after_the_call() {
    let keys = Keypad::new();
    // 0x200: call 0x206; 0x202: V1 := 1; 0x204: jump 0x204; 0x206: V2 := 2; 0x208: return
    let mut chip = machine_running(&[
        0x22, 0x06, 0x61, 0x01, 0x12, 0x04, 0x62, 0x02, 0x00, 0xEE,
    ]);
    assert_eq!(chip.step(&keys), Ok(()));
    assert_eq!(chip.program_counter(), 0x206);
    assert_eq!(chip.stack_pointer(), 1);
    assert_eq!(chip.step(&keys), Ok(()));
    assert_eq!(chip.register(2), 2);
    assert_eq!(chip.step(&keys), Ok(()));
    assert_eq!(chip.program_counter(), 0x202);
    assert_eq!(chip.stack_pointer(), 0);
    assert_eq!(chip.step(&keys), Ok(()));
    assert_eq!(chip.register(1), 1);
    assert_eq!(chip.step(&keys), Ok(()));
    assert_eq!(chip.program_counter(), 0x204);
}

#[test]
fn unknown_opcode_leaves_the_machine_unchanged() {
    let keys = Keypad::new();
    let mut chip = Chip8::new(0);
    for x in 0..16u8 {
        chip.load_to_register(x, 0xA0 + x);
    }
    chip.load_i(0x345);
    chip.call_subroutine(0x400);
    assert_eq!(chip.write_memory(0x400, 0x5A), Ok(()));
    let before = registers(&chip);
    assert_eq!(chip.execute(0x8128, &keys), Err(Chip8Error::UnknownOpcode { opcode: 0x8128 }));
    assert_eq!(chip.execute(0xE100, &keys), Err(Chip8Error::UnknownOpcode { opcode: 0xE100 }));
    assert_eq!(chip.execute(0xF1FF, &keys), Err(Chip8Error::UnknownOpcode { opcode: 0xF1FF }));
    assert_eq!(registers(&chip), before);
    assert_eq!(chip.i_register(), 0x345);
    assert_eq!(chip.program_counter(), 0x400);
    assert_eq!(chip.stack_pointer(), 1);
    assert_eq!(chip.delay_timer(), 0);
    assert_eq!(chip.sound_timer(), 0);
    assert_eq!(chip.memory().address(0x400), Ok(0x5A));
    assert_eq!(chip.waiting_register(), None);
}

#[test]
fn step_on_an_unknown_opcode_does_not_advance() {
    let keys = Keypad::new();
    let mut chip = machine_running(&[0x61, 0x07, 0x81, 0x28]);
    assert_eq!(chip.step(&keys), Ok(()));
    let before = registers(&chip);
    assert_eq!(chip.step(&keys), Err(Chip8Error::UnknownOpcode { opcode: 0x8128 }));
    assert_eq!(chip.program_counter(), 0x202);
    assert_eq!(registers(&chip), before);
    assert_eq!(chip.step(&keys), Err(Chip8Error::UnknownOpcode { opcode: 0x8128 }));
    assert_eq!(chip.program_counter(), 0x202);
}

#[test]
fn step_on_a_memory_fault_does_not_advance() {
    let keys = Keypad::new();
    // I := 0x100; store V0 at I
    let mut chip = machine_running(&[0xA1, 0x00, 0xF0, 0x55]);
    assert_eq!(chip.step(&keys), Ok(()));
    assert_eq!(chip.step(&keys), Err(Chip8Error::OutOfBounds { addr: 0x100 }));
    assert_eq!(chip.program_counter(), 0x202);
    assert_eq!(chip.i_register(), 0x100);
}

#[test]
fn step_past_the_end_of_memory_fails() {
    let keys = Keypad::new();
    let mut chip = Chip8::new(0);
    chip.jump_to(0xFFE);
    assert_eq!(chip.step(&keys), Ok(()));
    assert_eq!(chip.program_counter(), 0x1000);
    assert_eq!(chip.step(&keys), Err(Chip8Error::OutOfBounds { addr: 0x1000 }));
    assert_eq!(chip.program_counter(), 0x1000);
}

#[test]
fn step_waits_for_a_key_and_goes_on_when_it_comes() {
    let mut keys = Keypad::new();
    let mut chip = machine_running(&[0xF3, 0x0A, 0x64, 0x44]);
    assert_eq!(chip.step(&keys), Ok(()));
    assert_eq!(chip.waiting_register(), Some(3));
    assert_eq!(chip.program_counter(), 0x202);
    for _ in 0..5 {
        assert_eq!(chip.step(&keys), Ok(()));
        assert_eq!(chip.waiting_register(), Some(3));
        assert_eq!(chip.program_counter(), 0x202);
        assert_eq!(chip.register(4), 0);
    }
    keys.press(0xB);
    assert_eq!(chip.step(&keys), Ok(()));
    assert_eq!(chip.waiting_register(), None);
    assert_eq!(chip.register(3), 0xB);
    assert_eq!(chip.program_counter(), 0x202);
    assert_eq!(chip.register(4), 0);
    keys.clear_pressed();
    assert_eq!(chip.step(&keys), Ok(()));
    assert_eq!(chip.register(4), 0x44);
    assert_eq!(chip.program_counter(), 0x204);
}

#[test]
fn step_with_a_key_already_reported_does_not_suspend() {
    let mut keys = Keypad::new();
    keys.press(0x2);
    let mut chip = machine_running(&[0xF3, 0x0A]);
    assert_eq!(chip.step(&keys), Ok(()));
    assert_eq!(chip.waiting_register(), None);
    assert_eq!(chip.register(3), 0x2);
    assert_eq!(chip.program_counter(), 0x202);
}

#[test]
fn timers_tick_while_the_machine_waits() {
    let keys = Keypad::new();
    // V1 := 3; delay := V1; wait for key into V2
    let mut chip = machine_running(&[0x61, 0x03, 0xF1, 0x15, 0xF2, 0x0A]);
    assert_eq!(chip.step(&keys), Ok(()));
    assert_eq!(chip.step(&keys), Ok(()));
    assert_eq!(chip.step(&keys), Ok(()));
    assert_eq!(chip.waiting_register(), Some(2));
    chip.tick_timers();
    assert_eq!(chip.step(&keys), Ok(()));
    chip.tick_timers();
    assert_eq!(chip.delay_timer(), 1);
    assert_eq!(chip.waiting_register(), Some(2));
}

#[test]
fn a_small_program_counts_to_five() {
    let keys = Keypad::new();
    // 0x200: V0 := 0
    // 0x202: V0 += 1
    // 0x204: skip if V0 == 5
    // 0x206: jump 0x202
    // 0x208: I := 0x300
    // 0x20A: store BCD of V0
    let mut chip = machine_running(&[
        0x60, 0x00, 0x70, 0x01, 0x30, 0x05, 0x12, 0x02, 0xA3, 0x00, 0xF0, 0x33,
    ]);
    let mut steps = 0;
    while chip.program_counter() != 0x20C {
        assert_eq!(chip.step(&keys), Ok(()));
        steps += 1;
        assert!(steps < 100);
    }
    assert_eq!(steps, 1 + 5 * 3 - 1 + 2);
    assert_eq!(chip.register(0), 5);
    assert_eq!(chip.memory().address(0x302), Ok(5));
}
