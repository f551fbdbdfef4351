//! XOR, AND and OR on 32- and 64-bit words by byte-wise composition.
//!
//! Bitwise logic has no cross-byte carry, so a word operation decomposes
//! both operands into big-endian byte sequences, applies the byte-level
//! primitive independently to each aligned byte pair, and reassembles the
//! result. The pairing loop is shared by both widths; only the
//! decomposition and reassembly are width-specific.

use vstd::prelude::*;
use crate::byte_ops::{u8_bit_and, u8_bit_or, u8_bit_xor};

verus! {

/// Selects which boolean operation a byte-wise word combination applies.
#[derive(Clone, Copy)]
pub enum BitOp {
    Xor,
    Or,
    And,
}

/// The boolean operation selected by `op`, on a pair of bytes.
pub open spec fn apply_op(op: BitOp, x: u8, y: u8) -> u8 {
    match op {
        BitOp::Xor => x ^ y,
        BitOp::Or => x | y,
        BitOp::And => x & y,
    }
}

/// The byte of `a` whose lowest bit sits `sh` positions up.
pub open spec fn u32_byte_at(a: u32, sh: u32) -> u8 {
    ((a >> sh) & 0xFF) as u8
}

/// The byte of `a` whose lowest bit sits `sh` positions up.
pub open spec fn u64_byte_at(a: u64, sh: u64) -> u8 {
    ((a >> sh) & 0xFF) as u8
}

/// The 32-bit word assembled from four bytes in big-endian order.
pub open spec fn u32_of_be(b0: u8, b1: u8, b2: u8, b3: u8) -> u32 {
    (((b0 as u32) << 24) + ((b1 as u32) << 16) + ((b2 as u32) << 8) + (b3 as u32)) as u32
}

/// The 64-bit word assembled from eight bytes in big-endian order.
pub open spec fn u64_of_be(
    b0: u8,
    b1: u8,
    b2: u8,
    b3: u8,
    b4: u8,
    b5: u8,
    b6: u8,
    b7: u8,
) -> u64 {
    (((b0 as u64) << 56) + ((b1 as u64) << 48) + ((b2 as u64) << 40) + ((b3 as u64) << 32)
        + ((b4 as u64) << 24) + ((b5 as u64) << 16) + ((b6 as u64) << 8) + (b7 as u64)) as u64
}

/// Applies the selected boolean operation to one byte pair through the
/// table-backed byte primitives.
fn byte_op(op: BitOp, x: u8, y: u8) -> (r: u8)
    ensures
        r == apply_op(op, x, y),
{
    match op {
        BitOp::Xor => u8_bit_xor(x, y),
        BitOp::Or => u8_bit_or(x, y),
        BitOp::And => u8_bit_and(x, y),
    }
}

/// Applies the selected boolean operation to each aligned pair of two
/// equally long byte sequences, whatever their length.
fn combine_bytes(op: BitOp, a: &Vec<u8>, b: &Vec<u8>) -> (r: Vec<u8>)
    requires
        a@.len() == b@.len(),
    ensures
        r@.len() == a@.len(),
        forall|i: int| 0 <= i < r@.len() ==> r@[i] == apply_op(op, a@[i], b@[i]),
{
    let mut res: Vec<u8> = Vec::new();
    let mut i: usize = 0;
    while i < a.len()
        invariant
            i <= a@.len(),
            a@.len() == b@.len(),
            res@.len() == i,
            forall|j: int| 0 <= j < i ==> res@[j] == apply_op(op, a@[j], b@[j]),
        decreases a@.len() - i,
    {
        res.push(byte_op(op, a[i], b[i]));
        i = i + 1;
    }
    res
}

/// Decomposes a 32-bit word into its four bytes, big-endian.
fn u32_to_be_bytes(a: u32) -> (r: Vec<u8>)
    ensures
        r@.len() == 4,
        r@[0] == u32_byte_at(a, 24),
        r@[1] == u32_byte_at(a, 16),
        r@[2] == u32_byte_at(a, 8),
        r@[3] == u32_byte_at(a, 0),
{
    assert(((a >> 24) & 0xFF) < 256 && ((a >> 16) & 0xFF) < 256 && ((a >> 8) & 0xFF) < 256
        && ((a >> 0) & 0xFF) < 256) by (bit_vector);
    let mut r: Vec<u8> = Vec::new();
    r.push(((a >> 24) & 0xFF) as u8);
    r.push(((a >> 16) & 0xFF) as u8);
    r.push(((a >> 8) & 0xFF) as u8);
    r.push(((a >> 0) & 0xFF) as u8);
    r
}

/// Reassembles a 32-bit word from its four bytes, big-endian.
fn u32_from_be_bytes(b0: u8, b1: u8, b2: u8, b3: u8) -> (r: u32)
    ensures
        r == u32_of_be(b0, b1, b2, b3),
{
    assert(((b0 as u32) << 24) + ((b1 as u32) << 16) + ((b2 as u32) << 8) + (b3 as u32)
        <= 0xFFFF_FFFF) by (bit_vector);
    ((b0 as u32) << 24) + ((b1 as u32) << 16) + ((b2 as u32) << 8) + (b3 as u32)
}

/// Reassembling the byte-wise boolean results of two words gives exactly
/// the word-level boolean result: the operation never crosses a byte
/// boundary.
proof fn lemma_u32_recompose(a: u32, b: u32)
    by (bit_vector)
    ensures
        u32_of_be(
            u32_byte_at(a, 24) ^ u32_byte_at(b, 24),
            u32_byte_at(a, 16) ^ u32_byte_at(b, 16),
            u32_byte_at(a, 8) ^ u32_byte_at(b, 8),
            u32_byte_at(a, 0) ^ u32_byte_at(b, 0),
        ) == (a ^ b),
        u32_of_be(
            u32_byte_at(a, 24) | u32_byte_at(b, 24),
            u32_byte_at(a, 16) | u32_byte_at(b, 16),
            u32_byte_at(a, 8) | u32_byte_at(b, 8),
            u32_byte_at(a, 0) | u32_byte_at(b, 0),
        ) == (a | b),
        u32_of_be(
            u32_byte_at(a, 24) & u32_byte_at(b, 24),
            u32_byte_at(a, 16) & u32_byte_at(b, 16),
            u32_byte_at(a, 8) & u32_byte_at(b, 8),
            u32_byte_at(a, 0) & u32_byte_at(b, 0),
        ) == (a & b),
{
}

/// The selected boolean operation on 32-bit words, byte by byte.
fn u32_bytewise(op: BitOp, a: u32, b: u32) -> (r: u32)
    ensures
        op == BitOp::Xor ==> r == (a ^ b),
        op == BitOp::Or ==> r == (a | b),
        op == BitOp::And ==> r == (a & b),
{
    let a_byte_be: Vec<u8> = u32_to_be_bytes(a);
    let b_byte_be: Vec<u8> = u32_to_be_bytes(b);

    let res: Vec<u8> = combine_bytes(op, &a_byte_be, &b_byte_be);

    proof {
        lemma_u32_recompose(a, b);
    }
    u32_from_be_bytes(res[0], res[1], res[2], res[3])
}

/// Bitwise XOR of two 32-bit words.
pub fn u32_bit_xor(a: u32, b: u32) -> (r: u32)
    ensures
        r == (a ^ b),
{
    u32_bytewise(BitOp::Xor, a, b)
}

/// Bitwise OR of two 32-bit words.
pub fn u32_bit_or(a: u32, b: u32) -> (r: u32)
    ensures
        r == (a | b),
{
    u32_bytewise(BitOp::Or, a, b)
}

/// Bitwise AND of two 32-bit words.
pub fn u32_bit_and(a: u32, b: u32) -> (r: u32)
    ensures
        r == (a & b),
{
    u32_bytewise(BitOp::And, a, b)
}

/// Decomposes a 64-bit word into its eight bytes, big-endian.
fn u64_to_be_bytes(a: u64) -> (r: Vec<u8>)
    ensures
        r@.len() == 8,
        r@[0] == u64_byte_at(a, 56),
        r@[1] == u64_byte_at(a, 48),
        r@[2] == u64_byte_at(a, 40),
        r@[3] == u64_byte_at(a, 32),
        r@[4] == u64_byte_at(a, 24),
        r@[5] == u64_byte_at(a, 16),
        r@[6] == u64_byte_at(a, 8),
        r@[7] == u64_byte_at(a, 0),
{
    assert(((a >> 56) & 0xFF) < 256 && ((a >> 48) & 0xFF) < 256 && ((a >> 40) & 0xFF) < 256
        && ((a >> 32) & 0xFF) < 256 && ((a >> 24) & 0xFF) < 256 && ((a >> 16) & 0xFF) < 256
        && ((a >> 8) & 0xFF) < 256 && ((a >> 0) & 0xFF) < 256) by (bit_vector);
    let mut r: Vec<u8> = Vec::new();
    r.push(((a >> 56) & 0xFF) as u8);
    r.push(((a >> 48) & 0xFF) as u8);
    r.push(((a >> 40) & 0xFF) as u8);
    r.push(((a >> 32) & 0xFF) as u8);
    r.push(((a >> 24) & 0xFF) as u8);
    r.push(((a >> 16) & 0xFF) as u8);
    r.push(((a >> 8) & 0xFF) as u8);
    r.push(((a >> 0) & 0xFF) as u8);
    r
}

/// Reassembles a 64-bit word from its eight bytes, big-endian.
fn u64_from_be_bytes(b0: u8, b1: u8, b2: u8, b3: u8, b4: u8, b5: u8, b6: u8, b7: u8) -> (r: u64)
    ensures
        r == u64_of_be(b0, b1, b2, b3, b4, b5, b6, b7),
{
    assert(((b0 as u64) << 56) + ((b1 as u64) << 48) + ((b2 as u64) << 40) + ((b3 as u64) << 32)
        + ((b4 as u64) << 24) + ((b5 as u64) << 16) + ((b6 as u64) << 8) + (b7 as u64)
        <= 0xFFFF_FFFF_FFFF_FFFF) by (bit_vector);
    ((b0 as u64) << 56) + ((b1 as u64) << 48) + ((b2 as u64) << 40) + ((b3 as u64) << 32) + ((b4
        as u64) << 24) + ((b5 as u64) << 16) + ((b6 as u64) << 8) + (b7 as u64)
}

/// Reassembling the byte-wise boolean results of two 64-bit words gives
/// exactly the word-level boolean result.
proof fn lemma_u64_recompose(a: u64, b: u64)
    by (bit_vector)
    ensures
        u64_of_be(
            u64_byte_at(a, 56) ^ u64_byte_at(b, 56),
            u64_byte_at(a, 48) ^ u64_byte_at(b, 48),
            u64_byte_at(a, 40) ^ u64_byte_at(b, 40),
            u64_byte_at(a, 32) ^ u64_byte_at(b, 32),
            u64_byte_at(a, 24) ^ u64_byte_at(b, 24),
            u64_byte_at(a, 16) ^ u64_byte_at(b, 16),
            u64_byte_at(a, 8) ^ u64_byte_at(b, 8),
            u64_byte_at(a, 0) ^ u64_byte_at(b, 0),
        ) == (a ^ b),
        u64_of_be(
            u64_byte_at(a, 56) | u64_byte_at(b, 56),
            u64_byte_at(a, 48) | u64_byte_at(b, 48),
            u64_byte_at(a, 40) | u64_byte_at(b, 40),
            u64_byte_at(a, 32) | u64_byte_at(b, 32),
            u64_byte_at(a, 24) | u64_byte_at(b, 24),
            u64_byte_at(a, 16) | u64_byte_at(b, 16),
            u64_byte_at(a, 8) | u64_byte_at(b, 8),
            u64_byte_at(a, 0) | u64_byte_at(b, 0),
        ) == (a | b),
        u64_of_be(
            u64_byte_at(a, 56) & u64_byte_at(b, 56),
            u64_byte_at(a, 48) & u64_byte_at(b, 48),
            u64_byte_at(a, 40) & u64_byte_at(b, 40),
            u64_byte_at(a, 32) & u64_byte_at(b, 32),
            u64_byte_at(a, 24) & u64_byte_at(b, 24),
            u64_byte_at(a, 16) & u64_byte_at(b, 16),
            u64_byte_at(a, 8) & u64_byte_at(b, 8),
            u64_byte_at(a, 0) & u64_byte_at(b, 0),
        ) == (a & b),
{
}

/// The selected boolean operation on 64-bit words, byte by byte.
fn u64_bytewise(op: BitOp, a: u64, b: u64) -> (r: u64)
    ensures
        op == BitOp::Xor ==> r == (a ^ b),
        op == BitOp::Or ==> r == (a | b),
        op == BitOp::And ==> r == (a & b),
{
    let a_byte_be: Vec<u8> = u64_to_be_bytes(a);
    let b_byte_be: Vec<u8> = u64_to_be_bytes(b);

    let res: Vec<u8> = combine_bytes(op, &a_byte_be, &b_byte_be);

    proof {
        lemma_u64_recompose(a, b);
    }
    u64_from_be_bytes(res[0], res[1], res[2], res[3], res[4], res[5], res[6], res[7])
}

/// Bitwise XOR of two 64-bit words.
pub fn u64_bit_xor(a: u64, b: u64) -> (r: u64)
    ensures
        r == (a ^ b),
{
    u64_bytewise(BitOp::Xor, a, b)
}

/// Bitwise OR of two 64-bit words.
pub fn u64_bit_or(a: u64, b: u64) -> (r: u64)
    ensures
        r == (a | b),
{
    u64_bytewise(BitOp::Or, a, b)
}

/// Bitwise AND of two 64-bit words.
pub fn u64_bit_and(a: u64, b: u64) -> (r: u64)
    ensures
        r == (a & b),
{
    u64_bytewise(BitOp::And, a, b)
}

} // verus!

