//! Decoding of 16-bit instruction words into their fields.
//!
//! An instruction word packs a 4-bit group selector in its top nibble and a
//! 12-bit operand in its low bits; the operand is further read as register
//! nibbles, a literal byte, or a 12-bit address depending on the group.

use vstd::prelude::*;

verus! {

/// Returns the most significant nibble of an instruction word: the group
/// selector that picks which handler executes.
pub fn get_op_code(op: u16) -> (r: u16)
    ensures
        r == op / 0x1000,
        r < 16,
{
    proof {
        assert((op & 0xF000) >> 12u16 == op / 0x1000 && op / 0x1000 < 16) by (bit_vector);
    }
    (op & 0xF000) >> 12
}

/// Splits an instruction word into its high and low bytes.
pub fn split_op(op: u16) -> (r: (u8, u8))
    ensures
        r.0 == op / 0x100,
        r.1 == op % 0x100,
{
    proof {
        assert((op >> 8u16) as u8 == op / 0x100 && (op & 0x00FF) as u8 == op % 0x100)
            by (bit_vector);
    }
    ((op >> 8) as u8, (op & 0x00FF) as u8)
}

/// Splits an instruction word into its four nibbles, most significant first.
pub fn get_op_words(op: u16) -> (r: [u8; 4])
    ensures
        r@.len() == 4,
        r@[0] == op / 0x1000,
        r@[1] == (op / 0x100) % 0x10,
        r@[2] == (op / 0x10) % 0x10,
        r@[3] == op % 0x10,
{
    proof {
        assert(((op & 0xF000) >> 12u16) as u8 == op / 0x1000
            && ((op & 0x0F00) >> 8u16) as u8 == (op / 0x100) % 0x10
            && ((op & 0x00F0) >> 4u16) as u8 == (op / 0x10) % 0x10
            && (op & 0x000F) as u8 == op % 0x10) by (bit_vector);
    }
    [
        ((op & 0xF000) >> 12) as u8,
        ((op & 0x0F00) >> 8) as u8,
        ((op & 0x00F0) >> 4) as u8,
        (op & 0x000F) as u8,
    ]
}

/// Combines two nibbles into one byte, the first nibble most significant.
pub fn combine_words(first: u8, second: u8) -> (r: u8)
    ensures
        r == ((first << 4u8) | second),
        first < 16 && second < 16 ==> r == 16 * first + second,
{
    proof {
        assert(first < 16 && second < 16 ==> ((first << 4u8) | second) == 16 * first + second)
            by (bit_vector);
    }
    first << 4 | second
}

} // verus!
