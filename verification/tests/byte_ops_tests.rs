use bitwise_arith::byte_ops::{
    helper, pre_compile_xor_table, u8_and, u8_bit_and, u8_bit_or, u8_bit_xor, u8_or, u8_xor,
};

#[test]
fn test_u8_xor() {
    let a: u8 = 0b00101010;
    let b: u8 = 0b10100100;

    let actual = u8_xor(a, b);
    let expect = a ^ b;
    assert_eq!(expect, actual);

    let a: u8 = 0xd8;
    let b: u8 = 0xb6;

    let actual = u8_xor(a, b);
    let expect = a ^ b;
    assert_eq!(expect, actual);
    let actual = u8_bit_xor(a, b);
    assert_eq!(expect, actual);
}

#[test]
fn test_u8_or() {
    let a: u8 = 0xd8;
    let b: u8 = 0xb6;

    let actual = u8_or(a, b);
    let expect = a | b;
    assert_eq!(expect, actual);

    let actual = u8_bit_or(a, b);
    let expect = a | b;
    assert_eq!(expect, actual);
}

#[test]
fn test_u8_and() {
    let a: u8 = 0xd8;
    let b: u8 = 0xb6;

    let actual = u8_and(a, b);
    let expect = a & b;
    assert_eq!(expect, actual);

    let actual = u8_bit_and(a, b);
    let expect = a & b;
    assert_eq!(expect, actual);
}

#[test]
fn test_u8_xor_table() {
    for (i, actual) in (0..=u8::MAX).zip(pre_compile_xor_table()) {
        let expect = helper(i);
        println!("f({i})={:02X}", expect);
        assert_eq!(expect, actual);
    }
}

#[test]
fn test_u8_xor_exhaustive() {
    for a in 0..=u8::MAX {
        for b in 0..=u8::MAX {
            assert_eq!(u8_xor(a, b), a ^ b);
            assert_eq!(u8_bit_xor(a, b), a ^ b);
        }
    }
}

#[test]
fn test_u8_or_exhaustive() {
    for a in 0..=u8::MAX {
        for b in 0..=u8::MAX {
            assert_eq!(u8_or(a, b), a | b);
            assert_eq!(u8_bit_or(a, b), a | b);
        }
    }
}

#[test]
fn test_u8_and_exhaustive() {
    for a in 0..=u8::MAX {
        for b in 0..=u8::MAX {
            assert_eq!(u8_and(a, b), a & b);
            assert_eq!(u8_bit_and(a, b), a & b);
        }
    }
}

#[test]
fn test_u8_concrete_vectors() {
    assert_eq!(u8_xor(0xD8, 0xB6), 0x6E);
    assert_eq!(u8_bit_xor(0xD8, 0xB6), 0x6E);
    assert_eq!(u8_or(0xD8, 0xB6), 0xFE);
    assert_eq!(u8_bit_or(0xD8, 0xB6), 0xFE);
    assert_eq!(u8_and(0xD8, 0xB6), 0x90);
    assert_eq!(u8_bit_and(0xD8, 0xB6), 0x90);
}
