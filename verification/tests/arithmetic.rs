use chip8::cpu::Chip8;
use chip8::error::Chip8Error;
use chip8::keypad::Keypad;

fn machine_with(x: u8, vx: u8, y: u8, vy: u8) -> Chip8 {
    let mut chip = Chip8::new(0);
    chip.load_to_register(x, vx);
    chip.load_to_register(y, vy);
    chip
}

#[test]
fn add_sets_carry_on_overflow() {
    let mut chip = machine_with(1, 0xFF, 2, 0x01);
    chip.add(1, 2);
    assert_eq!(chip.register(1), 0x00);
    assert_eq!(chip.register(0xF), 1);
    assert_eq!(chip.register(2), 0x01);
}

#[test]
fn add_clears_carry_without_overflow() {
    let mut chip = machine_with(1, 0x01, 2, 0x01);
    chip.load_to_register(0xF, 1);
    chip.add(1, 2);
    assert_eq!(chip.register(1), 0x02);
    assert_eq!(chip.register(0xF), 0);
}

#[test]
fn add_at_the_edge_of_a_byte() {
    let mut chip = machine_with(3, 0xFE, 4, 0x01);
    chip.add(3, 4);
    assert_eq!(chip.register(3), 0xFF);
    assert_eq!(chip.register(0xF), 0);
    let mut chip = machine_with(3, 0xFF, 4, 0xFF);
    chip.add(3, 4);
    assert_eq!(chip.register(3), 0xFE);
    assert_eq!(chip.register(0xF), 1);
}

#[test]
fn add_through_execute() {
    let keys = Keypad::new();
    let mut chip = Chip8::new(0);
    assert_eq!(chip.execute(0x6AFF, &keys), Ok(()));
    assert_eq!(chip.execute(0x6B01, &keys), Ok(()));
    assert_eq!(chip.execute(0x8AB4, &keys), Ok(()));
    assert_eq!(chip.register(0xA), 0x00);
    assert_eq!(chip.register(0xF), 1);
}

#[test]
fn add_writes_the_flag_before_the_sum() {
    let mut chip = machine_with(0xF, 0xFF, 2, 0x01);
    chip.add(0xF, 2);
    assert_eq!(chip.register(0xF), 2);
    let mut chip = machine_with(1, 0xF0, 0xF, 0x20);
    chip.add(1, 0xF);
    assert_eq!(chip.register(0xF), 1);
    assert_eq!(chip.register(1), 0xF1);
}

#[test]
fn sub_sets_flag_when_there_is_no_borrow() {
    let mut chip = machine_with(1, 0x05, 2, 0x03);
    chip.sub(1, 2);
    assert_eq!(chip.register(1), 0x02);
    assert_eq!(chip.register(0xF), 1);
}

#[test]
fn sub_wraps_and_clears_flag_on_borrow() {
    let mut chip = machine_with(1, 0x03, 2, 0x05);
    chip.load_to_register(0xF, 1);
    chip.sub(1, 2);
    assert_eq!(chip.register(1), 0xFE);
    assert_eq!(chip.register(0xF), 0);
}

#[test]
fn sub_of_equal_values_clears_flag() {
    let mut chip = machine_with(1, 0x07, 2, 0x07);
    chip.load_to_register(0xF, 1);
    chip.sub(1, 2);
    assert_eq!(chip.register(1), 0x00);
    assert_eq!(chip.register(0xF), 0);
}

#[test]
fn subn_subtracts_the_other_way() {
    let mut chip = machine_with(1, 0x03, 2, 0x05);
    chip.subn(1, 2);
    assert_eq!(chip.register(1), 0x02);
    assert_eq!(chip.register(0xF), 1);
    assert_eq!(chip.register(2), 0x05);
    let mut chip = machine_with(1, 0x05, 2, 0x03);
    chip.subn(1, 2);
    assert_eq!(chip.register(1), 0xFE);
    assert_eq!(chip.register(0xF), 0);
    let mut chip = machine_with(1, 0x05, 2, 0x05);
    chip.subn(1, 2);
    assert_eq!(chip.register(1), 0x00);
    assert_eq!(chip.register(0xF), 0);
}

#[test]
fn shift_left_moves_high_bit_to_flag() {
    let mut chip = machine_with(1, 0x81, 2, 0x00);
    chip.shl(1, 2);
    assert_eq!(chip.register(1), 0x02);
    assert_eq!(chip.register(0xF), 1);
    let mut chip = machine_with(1, 0x41, 2, 0x00);
    chip.shl(1, 2);
    assert_eq!(chip.register(1), 0x82);
    assert_eq!(chip.register(0xF), 0);
}

#[test]
fn shift_right_moves_low_bit_to_flag() {
    let mut chip = machine_with(1, 0x81, 2, 0xFF);
    chip.shr(1, 2);
    assert_eq!(chip.register(1), 0x40);
    assert_eq!(chip.register(0xF), 1);
    assert_eq!(chip.register(2), 0xFF);
    let mut chip = machine_with(1, 0x82, 2, 0xFF);
    chip.shr(1, 2);
    assert_eq!(chip.register(1), 0x41);
    assert_eq!(chip.register(0xF), 0);
}

#[test]
fn shifts_through_execute() {
    let keys = Keypad::new();
    let mut chip = Chip8::new(0);
    assert_eq!(chip.execute(0x6381, &keys), Ok(()));
    assert_eq!(chip.execute(0x830E, &keys), Ok(()));
    assert_eq!(chip.register(3), 0x02);
    assert_eq!(chip.register(0xF), 1);
    assert_eq!(chip.execute(0x6303, &keys), Ok(()));
    assert_eq!(chip.execute(0x8306, &keys), Ok(()));
    assert_eq!(chip.register(3), 0x01);
    assert_eq!(chip.register(0xF), 1);
}

#[test]
fn bitwise_operations_leave_the_flag_alone() {
    let mut chip = machine_with(1, 0b1100, 2, 0b1010);
    chip.load_to_register(0xF, 0x5A);
    chip.or(1, 2);
    assert_eq!(chip.register(1), 0b1110);
    chip.load_to_register(1, 0b1100);
    chip.and(1, 2);
    assert_eq!(chip.register(1), 0b1000);
    chip.load_to_register(1, 0b1100);
    chip.xor(1, 2);
    assert_eq!(chip.register(1), 0b0110);
    assert_eq!(chip.register(2), 0b1010);
    assert_eq!(chip.register(0xF), 0x5A);
}

#[test]
fn load_from_to_copies_a_register() {
    let mut chip = machine_with(1, 0x11, 2, 0x22);
    chip.load_from_to(1, 2);
    assert_eq!(chip.register(1), 0x22);
    assert_eq!(chip.register(2), 0x22);
}

#[test]
fn add_to_register_wraps_without_a_flag() {
    let mut chip = machine_with(1, 0xFF, 0xF, 0x00);
    chip.add_to_register(1, 0x02);
    assert_eq!(chip.register(1), 0x01);
    assert_eq!(chip.register(0xF), 0);
    chip.add_to_register(1, 0x10);
    assert_eq!(chip.register(1), 0x11);
}

#[test]
fn logical_op_dispatches_on_the_low_nibble() {
    let mut chip = machine_with(1, 0x0F, 2, 0xF1);
    assert_eq!(chip.logitcal_op(0x8121), Ok(()));
    assert_eq!(chip.register(1), 0xFF);
    assert_eq!(chip.logitcal_op(0x8120), Ok(()));
    assert_eq!(chip.register(1), 0xF1);
    assert_eq!(chip.logitcal_op(0x8124), Ok(()));
    assert_eq!(chip.register(1), 0xE2);
    assert_eq!(chip.register(0xF), 1);
}

#[test]
fn logical_op_rejects_an_unknown_nibble() {
    let mut chip = machine_with(1, 0x0F, 2, 0xF1);
    assert_eq!(chip.logitcal_op(0x8128), Err(Chip8Error::UnknownOpcode { opcode: 0x8128 }));
    assert_eq!(chip.logitcal_op(0x812F), Err(Chip8Error::UnknownOpcode { opcode: 0x812F }));
    assert_eq!(chip.register(1), 0x0F);
    assert_eq!(chip.register(2), 0xF1);
    assert_eq!(chip.register(0xF), 0);
}

#[test]
fn add_carry_and_sum_make_up_the_true_sum() {
    for a in [0u8, 1, 0x7F, 0x80, 0xFE, 0xFF] {
        for b in [0u8, 1, 0x7F, 0x80, 0xFE, 0xFF] {
            let mut chip = machine_with(4, a, 5, b);
            chip.add(4, 5);
            let total = chip.register(4) as u16 + 256 * chip.register(0xF) as u16;
            assert_eq!(total, a as u16 + b as u16);
        }
    }
}
