use bitwise_arith::word_ops::{
    u32_bit_and, u32_bit_or, u32_bit_xor, u64_bit_and, u64_bit_or, u64_bit_xor,
};

#[test]
fn test_u32_bit_xor() {
    let a: u32 = 0x5553ff55;
    let b: u32 = 0xA1A2ffA3;

    let actual = u32_bit_xor(a, b);
    assert_eq!(actual, a ^ b, "u32_bit_xor failed")
}

#[test]
fn test_u32_bit_or() {
    let a: u32 = 0x5553ff55;
    let b: u32 = 0xA1A2ffA3;

    let actual = u32_bit_or(a, b);
    assert_eq!(actual, a | b, "u32_bit_or failed");
}

#[test]
fn test_u32_bit_and() {
    let a: u32 = 0x5553ff55;
    let b: u32 = 0xA1A2ffA3;

    let actual = u32_bit_and(a, b);
    assert_eq!(actual, a & b, "u32_bit_and failed");
}

#[test]
fn test_u64_bit_xor() {
    let a: u64 = 0x5553ff550a04d2c8;
    let b: u64 = 0xA1A2ffA3da3ff550;

    let actual = u64_bit_xor(a, b);
    assert_eq!(actual, a ^ b, "u64_bit_xor failed")
}

#[test]
fn test_u64_bit_or() {
    let a: u64 = 0x5553ff550a04d2c8;
    let b: u64 = 0xA1A2ffA3da3ff550;

    let actual = u64_bit_or(a, b);
    assert_eq!(actual, a | b, "u64_bit_or failed");
}

#[test]
fn test_u64_bit_and() {
    let a: u64 = 0x5553ff550a04d2c8;
    let b: u64 = 0xA1A2ffA3da3ff550;

    let actual = u64_bit_and(a, b);
    assert_eq!(actual, a & b, "u64_bit_and failed");
}

#[test]
fn test_u32_concrete_vectors() {
    assert_eq!(u32_bit_xor(0x5553FF55, 0xA1A2FFA3), 0xF4F100F6);
    assert_eq!(u32_bit_or(0x5553FF55, 0xA1A2FFA3), 0xF5F3FFF7);
}

#[test]
fn test_u32_boundary_patterns() {
    let patterns: [u32; 6] = [0, u32::MAX, 0x55555555, 0xAAAAAAAA, 0x5553FF55, 0xA1A2FFA3];
    for &a in patterns.iter() {
        for &b in patterns.iter() {
            assert_eq!(u32_bit_xor(a, b), a ^ b);
            assert_eq!(u32_bit_or(a, b), a | b);
            assert_eq!(u32_bit_and(a, b), a & b);
        }
    }
}

#[test]
fn test_u64_boundary_patterns() {
    let patterns: [u64; 6] = [
        0,
        u64::MAX,
        0x5555555555555555,
        0xAAAAAAAAAAAAAAAA,
        0x5553ff550a04d2c8,
        0xA1A2ffA3da3ff550,
    ];
    for &a in patterns.iter() {
        for &b in patterns.iter() {
            assert_eq!(u64_bit_xor(a, b), a ^ b);
            assert_eq!(u64_bit_or(a, b), a | b);
            assert_eq!(u64_bit_and(a, b), a & b);
        }
    }
}
