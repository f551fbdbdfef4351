//! XOR, AND and OR on bytes via bit-plane decomposition.
//!
//! A byte splits into an even plane (bits 0, 2, 4, 6) and an odd plane
//! (bits 1, 3, 5, 7). `plane(x)` packs the odd-position bits into the even
//! positions, so every 2-bit lane of a plane holds a value of at most 1, and
//! adding two planes never carries across a lane boundary. The carry out of a
//! lane when two packed single bits are added is exactly their logical AND,
//! which yields XOR as `p + q - 2*(p AND q)` and OR as `p + q - (p AND q)`,
//! computed lane-parallel over the whole byte in one arithmetic step.

use vstd::prelude::*;

verus! {

/// The even plane of a byte: bits at positions 1, 3, 5, 7 packed down into
/// positions 0, 2, 4, 6; everything else zero.
pub open spec fn plane(x: u8) -> u8 {
    (x & 0xAA) >> 1
}

/// The even-plane contribution of a byte, in its original bit positions.
pub open spec fn even_part(x: u8) -> u8 {
    x & 0xAA
}

/// The odd-plane contribution of a byte: what remains after removing the
/// even contribution.
pub open spec fn odd_part(x: u8) -> u8 {
    x & 0x55
}

/// The lane-parallel sum of the packed even planes of two bytes.
pub open spec fn even_sum(a: u8, b: u8) -> u8 {
    (plane(a) + plane(b)) as u8
}

/// The lane-parallel sum of the odd planes of two bytes.
pub open spec fn odd_sum(a: u8, b: u8) -> u8 {
    (odd_part(a) + odd_part(b)) as u8
}

/// A lane-parallel sum with its lane carries removed once: the OR of the
/// lanes that were summed.
pub open spec fn or_part(x: u8) -> u8 {
    (x - plane(x)) as u8
}

/// A byte partitions exactly into its even and odd planes, and a packed
/// plane always fits below 0x56.
proof fn lemma_plane_decomposition(x: u8)
    by (bit_vector)
    ensures
        plane(x) <= 0x55,
        plane(x) <= x,
        plane(x) << 1 == even_part(x),
        even_part(x) <= x,
        x - even_part(x) == odd_part(x),
        odd_part(x) <= 0x55,
{
}

/// The plane-level boolean identities, chained over both planes of a byte:
/// extracting the plane of a lane-parallel sum gives the lanes' AND, from
/// which XOR and OR follow by subtraction, and recombining the two plane
/// results reconstructs the byte-level boolean result.
proof fn lemma_byte_boolean_identities(a: u8, b: u8)
    by (bit_vector)
    ensures
        plane(a) + plane(b) <= 0xAA,
        odd_part(a) + odd_part(b) <= 0xAA,
        odd_part(odd_sum(a, b)) + (odd_part(even_sum(a, b)) << 1) == (a ^ b),
        or_part(odd_sum(a, b)) + (or_part(even_sum(a, b)) << 1) == (a | b),
        plane(odd_sum(a, b)) + (plane(even_sum(a, b)) << 1) == (a & b),
{
}

/// Packs the odd-position bits of a byte into the even positions: the
/// plane-extraction step of the construction.
pub fn helper(x: u8) -> (r: u8)
    ensures
        r == plane(x),
{
    (x & 0b10101010) >> 1
}

/// Bitwise XOR of two bytes, computed with addition, subtraction and
/// shift-by-one only (besides the masking inside plane extraction).
pub fn u8_xor(a: u8, b: u8) -> (r: u8)
    ensures
        r == (a ^ b),
{
    proof {
        lemma_plane_decomposition(a);
        lemma_plane_decomposition(b);
        lemma_byte_boolean_identities(a, b);
        lemma_plane_decomposition(even_sum(a, b));
        lemma_plane_decomposition(odd_sum(a, b));
    }
    let f_a: u8 = helper(a);
    let a_even: u8 = f_a << 1;
    let a_odd: u8 = a - a_even;

    let f_b: u8 = helper(b);
    let b_even: u8 = f_b << 1;
    let b_odd: u8 = b - b_even;

    let a_andxor_b_even: u8 = f_a + f_b;
    let a_xor_b_even: u8 = a_andxor_b_even - (helper(a_andxor_b_even) << 1);

    let a_andxor_b_odd: u8 = a_odd + b_odd;
    let a_xor_b_odd: u8 = a_andxor_b_odd - (helper(a_andxor_b_odd) << 1);

    let a_xor_b: u8 = a_xor_b_odd + (a_xor_b_even << 1);
    a_xor_b
}

/// Bitwise OR of two bytes: like XOR, but each lane-parallel sum has its
/// carry subtracted once instead of twice.
pub fn u8_or(a: u8, b: u8) -> (r: u8)
    ensures
        r == (a | b),
{
    proof {
        lemma_plane_decomposition(a);
        lemma_plane_decomposition(b);
        lemma_byte_boolean_identities(a, b);
        lemma_plane_decomposition(even_sum(a, b));
        lemma_plane_decomposition(odd_sum(a, b));
    }
    let f_a: u8 = helper(a);
    let a_even: u8 = f_a << 1;
    let a_odd: u8 = a - a_even;

    let f_b: u8 = helper(b);
    let b_even: u8 = f_b << 1;
    let b_odd: u8 = b - b_even;

    let a_andxor_b_even: u8 = f_a + f_b;
    let a_or_b_even: u8 = a_andxor_b_even - helper(a_andxor_b_even);

    let a_andxor_b_odd: u8 = a_odd + b_odd;
    let a_or_b_odd: u8 = a_andxor_b_odd - helper(a_andxor_b_odd);

    let a_or_b: u8 = a_or_b_odd + (a_or_b_even << 1);
    a_or_b
}

/// Bitwise AND of two bytes: the carries of the lane-parallel sums are
/// themselves the result.
pub fn u8_and(a: u8, b: u8) -> (r: u8)
    ensures
        r == (a & b),
{
    proof {
        lemma_plane_decomposition(a);
        lemma_plane_decomposition(b);
        lemma_byte_boolean_identities(a, b);
        lemma_plane_decomposition(even_sum(a, b));
        lemma_plane_decomposition(odd_sum(a, b));
    }
    let f_a: u8 = helper(a);
    let a_even: u8 = f_a << 1;
    let a_odd: u8 = a - a_even;

    let f_b: u8 = helper(b);
    let b_even: u8 = f_b << 1;
    let b_odd: u8 = b - b_even;

    let a_andxor_b_even: u8 = f_a + f_b;
    let a_and_b_even: u8 = helper(a_andxor_b_even);

    let a_andxor_b_odd: u8 = a_odd + b_odd;
    let a_and_b_odd: u8 = helper(a_andxor_b_odd);

    let a_and_b: u8 = a_and_b_odd + (a_and_b_even << 1);
    a_and_b
}

/// The 256-entry lookup table caching plane extraction for every byte value.
pub fn pre_compile_xor_table() -> (t: Vec<u8>)
    ensures
        t@.len() == 256,
        forall|i: int| 0 <= i < 256 ==> t@[i] == plane(i as u8),
{
    let mut table: Vec<u8> = Vec::new();
    let mut i: usize = 0;
    while i < 256
        invariant
            i <= 256,
            table@.len() == i,
            forall|j: int| 0 <= j < i ==> table@[j] == plane(j as u8),
        decreases 256 - i,
    {
        table.push(helper(i as u8));
        i = i + 1;
    }
    table
}

/// Bitwise XOR of two bytes, with plane extraction served from the
/// precomputed table instead of recomputed at each step.
pub fn u8_bit_xor(a: u8, b: u8) -> (r: u8)
    ensures
        r == (a ^ b),
{
    proof {
        lemma_plane_decomposition(a);
        lemma_plane_decomposition(b);
        lemma_byte_boolean_identities(a, b);
        lemma_plane_decomposition(even_sum(a, b));
        lemma_plane_decomposition(odd_sum(a, b));
    }
    let table: Vec<u8> = pre_compile_xor_table();

    let f_a: u8 = table[a as usize];
    let a_even: u8 = f_a << 1;
    let a_odd: u8 = a - a_even;

    let f_b: u8 = table[b as usize];
    let b_even: u8 = f_b << 1;
    let b_odd: u8 = b - b_even;

    let a_andxor_b_even: u8 = f_a + f_b;
    let a_xor_b_even: u8 = a_andxor_b_even - (table[a_andxor_b_even as usize] << 1);

    let a_andxor_b_odd: u8 = a_odd + b_odd;
    let a_xor_b_odd: u8 = a_andxor_b_odd - (table[a_andxor_b_odd as usize] << 1);

    let a_xor_b: u8 = a_xor_b_odd + (a_xor_b_even << 1);
    a_xor_b
}

/// Bitwise OR of two bytes, table-backed.
pub fn u8_bit_or(a: u8, b: u8) -> (r: u8)
    ensures
        r == (a | b),
{
    proof {
        lemma_plane_decomposition(a);
        lemma_plane_decomposition(b);
        lemma_byte_boolean_identities(a, b);
        lemma_plane_decomposition(even_sum(a, b));
        lemma_plane_decomposition(odd_sum(a, b));
    }
    let table: Vec<u8> = pre_compile_xor_table();

    let f_a: u8 = table[a as usize];
    let a_even: u8 = f_a << 1;
    let a_odd: u8 = a - a_even;

    let f_b: u8 = table[b as usize];
    let b_even: u8 = f_b << 1;
    let b_odd: u8 = b - b_even;

    let a_andxor_b_even: u8 = f_a + f_b;
    let a_or_b_even: u8 = a_andxor_b_even - table[a_andxor_b_even as usize];

    let a_andxor_b_odd: u8 = a_odd + b_odd;
    let a_or_b_odd: u8 = a_andxor_b_odd - table[a_andxor_b_odd as usize];

    let a_or_b: u8 = a_or_b_odd + (a_or_b_even << 1);
    a_or_b
}

/// Bitwise AND of two bytes, table-backed.
pub fn u8_bit_and(a: u8, b: u8) -> (r: u8)
    ensures
        r == (a & b),
{
    proof {
        lemma_plane_decomposition(a);
        lemma_plane_decomposition(b);
        lemma_byte_boolean_identities(a, b);
        lemma_plane_decomposition(even_sum(a, b));
        lemma_plane_decomposition(odd_sum(a, b));
    }
    let table: Vec<u8> = pre_compile_xor_table();

    let f_a: u8 = table[a as usize];
    let a_even: u8 = f_a << 1;
    let a_odd: u8 = a - a_even;

    let f_b: u8 = table[b as usize];
    let b_even: u8 = f_b << 1;
    let b_odd: u8 = b - b_even;

    let a_andxor_b_even: u8 = f_a + f_b;
    let a_and_b_even: u8 = table[a_andxor_b_even as usize];

    let a_andxor_b_odd: u8 = a_odd + b_odd;
    let a_and_b_odd: u8 = table[a_andxor_b_odd as usize];

    let a_and_b: u8 = a_and_b_odd + (a_and_b_even << 1);
    a_and_b
}

} // verus!
