use bitwise_arith::nibble_ops::{
    byte_right_shift, byte_to_nibbles, from_niblles_to_byte, nibble_bit_and, nibble_bit_xor,
    nibble_left_shift, nibble_right_shift, pre_compute_nibble_bitand_simple_table,
};

#[test]
fn test_nibble_bit_and() {
    let table = pre_compute_nibble_bitand_simple_table();
    println!("table: {:?}", table);

    let x: u8 = 0xF;
    let y: u8 = 0x1;

    assert_eq!(nibble_bit_and(x, y), x & y, "nibble_bit_and failed")
}

#[test]
fn test_nibble_bit_xor() {
    let table = pre_compute_nibble_bitand_simple_table();
    println!("table: {:?}", table);

    let x: u8 = 0xF;
    let y: u8 = 0x1;

    assert_eq!(nibble_bit_xor(x, y), x ^ y, "nibble_bit_xor failed")
}

#[test]
fn test_nibble_shift_with_table() {
    let a: u8 = 8;
    assert_eq!(nibble_left_shift(a, 1), a >> 1, "nibble_left_shift failed");
    assert_eq!(nibble_left_shift(a, 2), a >> 2, "nibble_left_shift failed");
    assert_eq!(nibble_left_shift(a, 3), a >> 3, "nibble_left_shift failed");

    assert_eq!(
        nibble_right_shift(a, 1),
        (a << 1) & 0xF,
        "nibble_right_shift failed"
    );
    assert_eq!(
        nibble_right_shift(a, 2),
        (a << 2) & 0xF,
        "nibble_right_shift failed"
    );
    assert_eq!(
        nibble_right_shift(a, 3),
        (a << 3) & 0xF,
        "nibble_right_shift failed"
    );
    println!("a<<3: {:?}", nibble_right_shift(3, 3));

    let bytes: u8 = 0x32;
    println!("hex: {:X}", bytes);
    assert_eq!(
        byte_right_shift(bytes),
        (bytes >> 1) & 0xF,
        "byte_right_shift failed"
    );
}

#[test]
fn test_convert_between_byte_and_nibbles() {
    let byte: u8 = 0x32;
    println!("byte: {:X}", byte);
    let (high_nibble, low_nibble) = byte_to_nibbles(byte);
    println!(
        "High Nibble: {:02X}, Low Nibble: {:02X}",
        high_nibble, low_nibble
    );

    let actual = from_niblles_to_byte(high_nibble, low_nibble);
    println!("actual: {:X}", actual);
    assert_eq!(byte, actual);
}

#[test]
fn test_nibble_shift_laws_exhaustive() {
    for n in 0..16u8 {
        for rounds in 0..4u8 {
            assert_eq!(nibble_left_shift(n, rounds), n >> rounds);
            assert_eq!(nibble_right_shift(n, rounds), (n << rounds) & 0xF);
        }
    }
}

#[test]
fn test_nibble_round_trip_exhaustive() {
    for b in 0..=u8::MAX {
        let (hi, lo) = byte_to_nibbles(b);
        assert_eq!(from_niblles_to_byte(hi, lo), b);
    }
}

#[test]
fn test_nibble_boolean_exhaustive() {
    for x in 0..16u8 {
        for y in 0..16u8 {
            assert_eq!(nibble_bit_and(x, y), x & y);
            assert_eq!(nibble_bit_xor(x, y), x ^ y);
        }
    }
}

#[test]
fn test_byte_right_shift_exhaustive() {
    for b in 0..=u8::MAX {
        assert_eq!(byte_right_shift(b), (b >> 1) & 0xF);
    }
}
