use vstd::prelude::*;

verus! {

/// The value of nibble `index` of a 16-bit word, nibble 0 being the most
/// significant and nibble 3 the least significant.
pub open spec fn nibble_of(value: u16, index: int) -> u8 {
    if index == 0 {
        (value / 0x1000) as u8
    } else if index == 1 {
        ((value / 0x100) % 0x10) as u8
    } else if index == 2 {
        ((value / 0x10) % 0x10) as u8
    } else {
        (value % 0x10) as u8
    }
}

/// The instruction family: the leading nibble.
pub open spec fn family(op: u16) -> u8 {
    nibble_of(op, 0)
}

/// The first register operand (second nibble).
pub open spec fn reg_x(op: u16) -> u8 {
    nibble_of(op, 1)
}

/// The second register operand (third nibble).
pub open spec fn reg_y(op: u16) -> u8 {
    nibble_of(op, 2)
}

/// The trailing sub-opcode (lowest nibble).
pub open spec fn sub_op(op: u16) -> u8 {
    nibble_of(op, 3)
}

/// The 8-bit immediate (lowest byte).
pub open spec fn imm8(op: u16) -> u8 {
    (op % 0x100) as u8
}

/// The 12-bit address field.
pub open spec fn addr12(op: u16) -> u16 {
    (op % 0x1000) as u16
}

/// Returns nibble `index` of `value` (0 is the most significant, 3 the least).
pub fn __get_nibble(value: u16, index: u8) -> (r: u8)
    requires
        index <= 3,
    ensures
        r == nibble_of(value, index as int),
        r < 16,
{
    let shift: u16 = 4 * (3 - index as u16);
    let r = ((value >> shift) & 0x000f) as u8;
    proof {
        if index == 0 {
            assert((value >> 12u16) & 0xfu16 == value / 0x1000) by (bit_vector);
        } else if index == 1 {
            assert((value >> 8u16) & 0xfu16 == (value / 0x100) % 0x10) by (bit_vector);
        } else if index == 2 {
            assert((value >> 4u16) & 0xfu16 == (value / 0x10) % 0x10) by (bit_vector);
        } else {
            assert((value >> 0u16) & 0xfu16 == value % 0x10) by (bit_vector);
        }
    }
    r
}

/// The 8-bit immediate of an instruction word.
pub fn immediate(op: u16) -> (r: u8)
    ensures
        r == imm8(op),
{
    assert(op & 0xffu16 == op % 0x100) by (bit_vector);
    (op & 0x00ff) as u8
}

/// The 12-bit address field of an instruction word.
pub fn address(op: u16) -> (r: u16)
    ensures
        r == addr12(op),
        r < 0x1000,
{
    assert(op & 0xfffu16 == op % 0x1000) by (bit_vector);
    op & 0x0fff
}

} // verus!
