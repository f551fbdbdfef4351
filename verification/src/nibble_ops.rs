//! Shift and boolean operations on nibbles (4-bit values), backed by small
//! lookup tables, plus splitting and merging of bytes into nibble pairs.
//!
//! A nibble is carried as a `u8` constrained to `[0, 16)` by the functions'
//! preconditions. Shifts by a constant number of rounds walk a 16-entry
//! table once per round; the nibble AND looks up a 256-entry table indexed
//! by the packed nibble pair, and nibble XOR follows from AND by the
//! single-bit identity `x ^ y == x + y - 2*(x & y)`.

use vstd::prelude::*;

verus! {

/// The high nibble of a byte.
pub open spec fn high_nibble_of(b: u8) -> u8 {
    b >> 4
}

/// The low nibble of a byte.
pub open spec fn low_nibble_of(b: u8) -> u8 {
    b & 0xF
}

/// The byte whose high nibble is `hi` and low nibble is `lo`.
pub open spec fn byte_of_nibbles(hi: u8, lo: u8) -> u8 {
    ((hi << 4) + lo) as u8
}

/// The entry of the packed-pair AND table at index `i`: the AND of the two
/// nibbles packed into `i`.
pub open spec fn nibble_and_entry(i: u8) -> u8 {
    (i >> 4) & (i & 0xF)
}

/// The 16-entry table mapping each nibble to itself shifted right by one
/// bit position.
pub fn pre_compute_left_shift() -> (t: Vec<u8>)
    ensures
        t@.len() == 16,
        forall|i: int| 0 <= i < 16 ==> t@[i] == (i as u8) >> 1 && t@[i] < 16,
{
    let mut res: Vec<u8> = Vec::new();
    let mut i: usize = 0;
    while i < 16
        invariant
            i <= 16,
            res@.len() == i,
            forall|j: int| 0 <= j < i ==> res@[j] == (j as u8) >> 1 && res@[j] < 16,
        decreases 16 - i,
    {
        let x: u8 = i as u8;
        let y: u8 = x >> 1;
        assert(x < 16 ==> x >> 1 < 16) by (bit_vector);
        res.push(y);
        i = i + 1;
    }
    res
}

/// The 16-entry table mapping each nibble to itself shifted left by one bit
/// position, truncated back to a nibble.
pub fn pre_compute_right_shift() -> (t: Vec<u8>)
    ensures
        t@.len() == 16,
        forall|i: int| 0 <= i < 16 ==> t@[i] == ((i as u8) << 1) & 0xF && t@[i] < 16,
{
    let mut res: Vec<u8> = Vec::new();
    let mut i: usize = 0;
    while i < 16
        invariant
            i <= 16,
            res@.len() == i,
            forall|j: int| 0 <= j < i ==> res@[j] == ((j as u8) << 1) & 0xF && res@[j] < 16,
        decreases 16 - i,
    {
        let x: u8 = i as u8;
        let y: u8 = (x << 1) & 0xF;
        assert(((x << 1) & 0xF) < 16) by (bit_vector);
        res.push(y);
        i = i + 1;
    }
    res
}

/// Shifts a nibble right by `round` bit positions, one table application
/// per round.
pub fn nibble_left_shift(nibble: u8, round: u8) -> (r: u8)
    requires
        nibble < 16,
        round < 4,
    ensures
        r == nibble >> round,
        r < 16,
{
    let table: Vec<u8> = pre_compute_left_shift();

    let mut cur: u8 = nibble;
    let mut k: u8 = 0;
    proof {
        assert(nibble >> 0u8 == nibble) by (bit_vector);
    }
    while k < round
        invariant
            k <= round,
            round < 4,
            nibble < 16,
            cur == nibble >> k,
            cur < 16,
            table@.len() == 16,
            forall|j: int| 0 <= j < 16 ==> table@[j] == (j as u8) >> 1 && table@[j] < 16,
        decreases round - k,
    {
        let next: u8 = table[cur as usize];
        assert(next == nibble >> ((k + 1) as u8)) by (bit_vector)
            requires
                next == cur >> 1,
                cur == nibble >> k,
                k < 4,
        ;
        cur = next;
        k = k + 1;
    }

    cur
}

/// Shifts a nibble left by `round` bit positions and truncates to a nibble,
/// one table application per round.
pub fn nibble_right_shift(nibble: u8, round: u8) -> (r: u8)
    requires
        nibble < 16,
        round < 4,
    ensures
        r == (nibble << round) & 0xF,
        r < 16,
{
    let table: Vec<u8> = pre_compute_right_shift();

    let mut cur: u8 = nibble;
    let mut k: u8 = 0;
    proof {
        assert((nibble << 0u8) & 0xF == nibble) by (bit_vector)
            requires
                nibble < 16,
        ;
    }
    while k < round
        invariant
            k <= round,
            round < 4,
            nibble < 16,
            cur == (nibble << k) & 0xF,
            cur < 16,
            table@.len() == 16,
            forall|j: int| 0 <= j < 16 ==> table@[j] == ((j as u8) << 1) & 0xF && table@[j] < 16,
        decreases round - k,
    {
        let next: u8 = table[cur as usize];
        assert(next == (nibble << ((k + 1) as u8)) & 0xF) by (bit_vector)
            requires
                next == (cur << 1) & 0xF,
                cur == (nibble << k) & 0xF,
                k < 4,
        ;
        cur = next;
        k = k + 1;
    }

    cur
}

/// Splits a byte into its high and low nibbles.
pub fn byte_to_nibbles(byte: u8) -> (r: (u8, u8))
    ensures
        r.0 == high_nibble_of(byte),
        r.1 == low_nibble_of(byte),
        r.0 < 16,
        r.1 < 16,
{
    let high_nibble: u8 = (byte >> 4) & 0x0F;
    let low_nibble: u8 = byte & 0x0F;
    assert((byte >> 4) & 0x0F == byte >> 4 && byte >> 4 < 16 && byte & 0x0F < 16) by (bit_vector);
    (high_nibble, low_nibble)
}

/// Merges a high and a low nibble back into a byte.
pub fn from_niblles_to_byte(high_nibble: u8, low_nibble: u8) -> (r: u8)
    requires
        high_nibble < 16,
        low_nibble < 16,
    ensures
        r == byte_of_nibbles(high_nibble, low_nibble),
        r == high_nibble * 16 + low_nibble,
{
    assert((high_nibble << 4) + low_nibble == high_nibble * 16 + low_nibble
        && (high_nibble << 4) + low_nibble <= 255) by (bit_vector)
        requires
            high_nibble < 16,
            low_nibble < 16,
    ;
    (high_nibble << 4) + low_nibble
}

/// Splitting a byte into its two nibbles and merging them back yields the
/// original byte, for every byte value: the two nibbles partition the
/// byte's bits exactly.
pub proof fn lemma_byte_nibble_round_trip(b: u8)
    by (bit_vector)
    ensures
        byte_of_nibbles(high_nibble_of(b), low_nibble_of(b)) == b,
{
}

/// Shifts a byte right by one bit position and keeps the low nibble of the
/// result, by combining the two nibble shifts: the high nibble contributes
/// its lowest bit (shifted to bit position three) and the low nibble its
/// upper three bits, over disjoint bit ranges, so addition merges them.
pub fn byte_right_shift(byte: u8) -> (r: u8)
    ensures
        r == (byte >> 1) & 0xF,
        r < 16,
{
    let pair: (u8, u8) = byte_to_nibbles(byte);
    let hi_part: u8 = nibble_right_shift(pair.0, 3);
    let lo_part: u8 = nibble_left_shift(pair.1, 1);
    assert((((byte >> 4) << 3) & 0xF) + ((byte & 0xF) >> 1) == ((byte >> 1) & 0xF)
        && ((byte >> 1) & 0xF) < 16) by (bit_vector);
    hi_part + lo_part
}

/// The 256-entry table holding, for every packed nibble pair, the AND of
/// the two nibbles.
pub fn pre_compute_nibble_bitand_simple_table() -> (t: Vec<u8>)
    ensures
        t@.len() == 256,
        forall|i: int| 0 <= i < 256 ==> t@[i] == nibble_and_entry(i as u8),
{
    let mut table: Vec<u8> = Vec::new();
    let mut i: usize = 0;
    while i < 256
        invariant
            i <= 256,
            table@.len() == i,
            forall|j: int| 0 <= j < i ==> table@[j] == nibble_and_entry(j as u8),
        decreases 256 - i,
    {
        let x: u8 = i as u8;
        let v: u8 = (x >> 4) & (x & 0xF);
        table.push(v);
        i = i + 1;
    }
    table
}

/// Bitwise AND of two nibbles: packs the pair into one byte and looks the
/// answer up in the packed-pair table.
pub fn nibble_bit_and(x: u8, y: u8) -> (r: u8)
    requires
        x < 16,
        y < 16,
    ensures
        r == (x & y),
        r < 16,
{
    let index: u8 = from_niblles_to_byte(x, y);

    let table: Vec<u8> = pre_compute_nibble_bitand_simple_table();
    let r: u8 = table[index as usize];
    assert(nibble_and_entry(byte_of_nibbles(x, y)) == (x & y) && (x & y) < 16) by (bit_vector)
        requires
            x < 16,
            y < 16,
    ;
    r
}

/// Bitwise XOR of two nibbles, from their AND by the single-bit identity
/// `x ^ y == x + y - 2*(x & y)`.
pub fn nibble_bit_xor(x: u8, y: u8) -> (r: u8)
    requires
        x < 16,
        y < 16,
    ensures
        r == (x ^ y),
        r < 16,
{
    let x_and_b: u8 = nibble_bit_and(x, y);
    assert(2 * (x & y) <= x + y && x + y - 2 * (x & y) == (x ^ y) && (x ^ y) < 16) by (bit_vector)
        requires
            x < 16,
            y < 16,
    ;
    x + y - 2 * x_and_b
}

} // verus!
