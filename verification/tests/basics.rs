use chip8::{u8_to_bool_array, Instruction};

#[test]
fn it_works() {
    let result = chip8::add(2, 2);
    assert_eq!(result, 4);
}

#[test]
fn u8_to_bool_test() {
    let byte: u8 = 0b10110011;
    let array = u8_to_bool_array(byte);
    assert_eq!(array, [true, false, true, true, false, false, true, true]);
    let byte: u8 = 0b00000000;
    let array = u8_to_bool_array(byte);
    assert_eq!(
        array,
        [false, false, false, false, false, false, false, false]
    );
    let byte: u8 = 0b11111111;
    let array = u8_to_bool_array(byte);
    assert_eq!(array, [true, true, true, true, true, true, true, true]);
}

#[test]
fn add_of_zero_is_the_other_summand() {
    assert_eq!(chip8::add(0, 0), 0);
    assert_eq!(chip8::add(0, 17), 17);
    assert_eq!(chip8::add(usize::MAX - 1, 1), usize::MAX);
}

#[test]
fn single_bits_land_in_their_column() {
    for col in 0..8usize {
        let bits = u8_to_bool_array(0x80 >> col);
        for other in 0..8usize {
            assert_eq!(bits[other], other == col);
        }
    }
}

#[test]
fn nibbles_come_most_significant_first() {
    assert_eq!(Instruction::code_to_nibble_array(0xD12F), [0xD, 0x1, 0x2, 0xF]);
    assert_eq!(Instruction::code_to_nibble_array(0x0000), [0, 0, 0, 0]);
    assert_eq!(Instruction::code_to_nibble_array(0xFFFF), [0xF, 0xF, 0xF, 0xF]);
}

#[test]
fn nibbles_combine_to_their_number() {
    assert_eq!(Instruction::combine_nibbles(&[]), 0);
    assert_eq!(Instruction::combine_nibbles(&[0xA]), 0xA);
    assert_eq!(Instruction::combine_nibbles(&[0x1, 0x2]), 0x12);
    assert_eq!(Instruction::combine_nibbles(&[0x1, 0x2, 0x3]), 0x123);
    assert_eq!(Instruction::combine_nibbles(&[0xF, 0x0, 0xE, 0x1]), 0xF0E1);
}
