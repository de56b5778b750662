//! Field extraction from a 16-bit opcode word.

use vstd::prelude::*;

verus! {

/// The low 12 bits of an opcode (`nnn`).
pub fn get_address(opcode: u16) -> (r: u16)
    ensures
        r == opcode % 0x1000,
{
    let r = opcode & 0xFFF;
    assert(opcode & 0xFFF == opcode % 0x1000) by (bit_vector);
    r
}

/// The low nibble of an opcode (`n`).
pub fn get_nibble(opcode: u16) -> (r: u16)
    ensures
        r == opcode % 16,
{
    let r = opcode & 0xF;
    assert(opcode & 0xF == opcode % 16) by (bit_vector);
    r
}

/// The second nibble from the top of an opcode (`x`), a register index.
pub fn get_x(opcode: u16) -> (r: usize)
    ensures
        r == (opcode / 256) % 16,
        r < 16,
{
    let n = (opcode & 0xF00) >> 8;
    assert((opcode & 0xF00) >> 8 == (opcode / 256) % 16) by (bit_vector);
    n as usize
}

/// The third nibble from the top of an opcode (`y`), a register index.
pub fn get_y(opcode: u16) -> (r: usize)
    ensures
        r == (opcode / 16) % 16,
        r < 16,
{
    let n = (opcode & 0xF0) >> 4;
    assert((opcode & 0xF0) >> 4 == (opcode / 16) % 16) by (bit_vector);
    n as usize
}

/// The low byte of an opcode (`kk`).
pub fn get_byte(opcode: u16) -> (r: u8)
    ensures
        r == opcode % 256,
{
    let n = opcode & 0xFF;
    assert(opcode & 0xFF == opcode % 256) by (bit_vector);
    n as u8
}

} // verus!
