//! Single-bit access to register values, through the `bit_field` crate.
use vstd::prelude::*;
use bit_field::BitField;

verus! {

/// `v` with bit `bit` set to `value`.
pub open spec fn with_bit(v: u32, bit: u32, value: bool) -> u32 {
    if value {
        v | (1u32 << bit)
    } else {
        v & !(1u32 << bit)
    }
}

/// `BitField::set_bit` on a `u32`: sets bit `bit` to `value`, leaving the
/// other bits (it panics for a bit index of 32 or more, which `requires`
/// rules out).
#[verifier::external_body]
pub(crate) fn u32_set_bit(v: u32, bit: usize, value: bool) -> (r: u32)
    requires
        bit < 32,
    ensures
        r == with_bit(v, bit as u32, value),
{
    let mut x = v;
    x.set_bit(bit, value);
    x
}

/// `BitField::get_bit` on a `u32`: whether bit `bit` is set (it panics for
/// a bit index of 32 or more, which `requires` rules out).
#[verifier::external_body]
pub(crate) fn u32_get_bit(v: u32, bit: usize) -> (b: bool)
    requires
        bit < 32,
    ensures
        b == (v & (1u32 << bit as u32) != 0),
{
    v.get_bit(bit)
}

} // verus!
