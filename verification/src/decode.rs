//! Taking an opcode apart into its fields.

use crate::model::{op_family, op_n, op_nn, op_nnn, op_x, op_y};
use vstd::prelude::*;

verus! {

/// The family of an opcode, 0x0 to 0xF.
pub fn family(opcode: u16) -> (f: u16)
    ensures
        f == op_family(opcode),
        f < 16,
{
    assert((opcode & 0xF000) >> 12 == opcode / 4096) by (bit_vector);
    (opcode & 0xF000) >> 12
}

/// The register that the X field names.
pub fn field_x(opcode: u16) -> (x: usize)
    ensures
        x == op_x(opcode),
        x < 16,
{
    assert((opcode & 0x0F00) >> 8 == (opcode / 256) % 16) by (bit_vector);
    ((opcode & 0x0F00) >> 8) as usize
}

/// The register that the Y field names.
pub fn field_y(opcode: u16) -> (y: usize)
    ensures
        y == op_y(opcode),
        y < 16,
{
    assert((opcode & 0x00F0) >> 4 == (opcode / 16) % 16) by (bit_vector);
    ((opcode & 0x00F0) >> 4) as usize
}

/// The four-bit constant N.
pub fn field_n(opcode: u16) -> (n: usize)
    ensures
        n == op_n(opcode),
        n < 16,
{
    assert(opcode & 0x000F == opcode % 16) by (bit_vector);
    (opcode & 0x000F) as usize
}

/// The eight-bit constant NN.
pub fn field_nn(opcode: u16) -> (nn: u8)
    ensures
        nn == op_nn(opcode),
{
    assert(opcode & 0x00FF == opcode % 256) by (bit_vector);
    (opcode & 0x00FF) as u8
}

/// The twelve-bit address NNN.
pub fn field_nnn(opcode: u16) -> (nnn: u16)
    ensures
        nnn == op_nnn(opcode),
        nnn < 4096,
{
    assert(opcode & 0x0FFF == opcode % 4096) by (bit_vector);
    opcode & 0x0FFF
}

} // verus!
