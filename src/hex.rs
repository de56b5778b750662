//! Hexadecimal digit helpers: the digits of a 16-bit value counted from its
//! least significant end ("last significant hex").

use vstd::prelude::*;

verus! {

/// Shifts `value` right by `4 * (lsh_place - 1)` bits and masks the result
/// with a nibble mask moved left by the same amount. For place 1 this is the
/// lowest digit; for place 2 it is the third digit moved to the second digit's
/// position; from place 3 on the mask lies above every remaining bit.
pub fn lsh(value: u16, lsh_place: u16) -> (r: u16)
    requires
        1 <= lsh_place <= 4,
    ensures
        lsh_place == 1 ==> r == value % 16,
        lsh_place == 2 ==> r == (value / 256 % 16) * 16,
        lsh_place >= 3 ==> r == 0,
{
    let lsh_place = lsh_place - 1;
    let r = (value >> (4 * lsh_place)) & (0xFu16 << (lsh_place * 4));
    assert(lsh_place == 0 ==> (value >> (4 * lsh_place)) & (0xFu16 << (lsh_place * 4)) == value
        % 16) by (bit_vector);
    assert(lsh_place == 1 ==> (value >> (4 * lsh_place)) & (0xFu16 << (lsh_place * 4)) == (value
        / 256 % 16) * 16) by (bit_vector);
    assert(2 <= lsh_place <= 3 ==> (value >> (4 * lsh_place)) & (0xFu16 << (lsh_place * 4)) == 0)
        by (bit_vector);
    r
}

/// The digit at `lsh_place` for the lower places; at place 3 the whole value
/// above the three low digits, which for an opcode is its top nibble.
pub fn opcode_lsh(value: u16, lsh_place: u16) -> (r: u16)
    requires
        0 < lsh_place < 4,
    ensures
        lsh_place == 1 ==> r == value % 16,
        lsh_place == 2 ==> r == (value / 256 % 16) * 16,
        lsh_place == 3 ==> r == value / 4096,
{
    if lsh_place == 3 {
        let r = value >> (4 * lsh_place);
        assert(value >> 12u16 == value / 4096) by (bit_vector);
        r
    } else {
        lsh(value, lsh_place)
    }
}

/// The two least significant digits, that is the low byte.
pub fn l2sh(value: u16) -> (r: u8)
    ensures
        r == value % 256,
{
    let m = value & 0xFF;
    assert(value & 0xFF == value % 256) by (bit_vector);
    m as u8
}

/// `opcode_lsh` at place 1: the lowest digit.
pub fn lsh1(value: u16) -> (r: u16)
    ensures
        r == value % 16,
{
    opcode_lsh(value, 1)
}

/// `opcode_lsh` at place 2: the third digit, moved to the second position.
pub fn lsh2(value: u16) -> (r: u16)
    ensures
        r == (value / 256 % 16) * 16,
{
    opcode_lsh(value, 2)
}

/// `opcode_lsh` at place 3: the top digit of a 16-bit value.
pub fn lsh3(value: u16) -> (r: u16)
    ensures
        r == value / 4096,
        r < 16,
{
    opcode_lsh(value, 3)
}

} // verus!
