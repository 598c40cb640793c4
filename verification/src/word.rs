//! Machine words: sums modulo 2^16 and two's-complement sign extension.

use vstd::arithmetic::power2::pow2;
use vstd::prelude::*;

verus! {

/// The sum of two words modulo 2^16.
pub open spec fn wrap_add(a: u16, b: u16) -> u16 {
    ((a + b) % 0x1_0000) as u16
}

/// The low eight bits of a word.
pub open spec fn low_byte(w: u16) -> u8 {
    (w % 0x100) as u8
}

/// The high eight bits of a word.
pub open spec fn high_byte(w: u16) -> u8 {
    (w / 0x100) as u8
}

/// The word that `sign_extend` gives: `value` itself where bit `bit_width - 1`
/// is clear, and `value` with the bits from `bit_width` up to 15 set where it
/// is set.
pub open spec fn sign_extended(value: u16, bit_width: u32) -> u16 {
    if (value >> ((bit_width - 1) as u32)) & 1 == 0 {
        value
    } else {
        value | (0xffffu16 << bit_width)
    }
}

/// Widens a `bit_width`-bit two's-complement number to sixteen bits.
pub fn sign_extend(value: u16, bit_width: u32) -> (r: u16)
    requires
        1 <= bit_width <= 16,
    ensures
        r == sign_extended(value, bit_width),
{
    if (value >> (bit_width - 1)) & 1 == 0 {
        value
    } else if bit_width == 16 {
        assert(value | (0xffffu16 << 16u32) == value) by (bit_vector);
        value
    } else {
        value | (0xffffu16 << bit_width)
    }
}

/// The low eight bits of a word.
pub(crate) fn low(w: u16) -> (b: u8)
    ensures
        b == low_byte(w),
{
    assert(w & 0xff == w % 0x100) by (bit_vector);
    (w & 0xff) as u8
}

/// The high eight bits of a word.
pub(crate) fn high(w: u16) -> (b: u8)
    ensures
        b == high_byte(w),
{
    assert(w >> 8 == w / 0x100) by (bit_vector);
    (w >> 8) as u8
}

/// The number that the low `bit_width` bits spell in two's complement, for an
/// `x` from 0 up to but not including 2^`bit_width`: from 2^(`bit_width` - 1)
/// on, `x` stands for `x` - 2^`bit_width`.
pub open spec fn signed_value(x: int, bit_width: nat) -> int {
    if x < pow2((bit_width - 1) as nat) {
        x
    } else {
        x - pow2(bit_width)
    }
}

/// Sign extension of a `k`-bit pattern, in shifts: below 2^(`k` - 1) the
/// pattern stays and is below 2^15; from there on it moves up by
/// 2^16 - 2^`k` and is at least 2^15.
proof fn lemma_sign_extended_bits(x: u16, k: u32)
    by (bit_vector)
    requires
        1 <= k <= 16,
        (x as u32) < (1u32 << k),
    ensures
        (x as u32) < (1u32 << ((k - 1) as u32)) ==> sign_extended(x, k) == x && x < 0x8000,
        (x as u32) >= (1u32 << ((k - 1) as u32)) ==> sign_extended(x, k) >= 0x8000
            && sign_extended(x, k) as u32 == (x as u32) + 0x1_0000 - (1u32 << k),
{
}

/// Sign extension keeps the number: a `bit_width`-bit pattern and its
/// extension to sixteen bits spell the same two's-complement number.
pub proof fn lemma_sign_extend_keeps_value(x: u16, bit_width: u32)
    requires
        1 <= bit_width <= 16,
        x < pow2(bit_width as nat),
    ensures
        signed_value(sign_extended(x, bit_width) as int, 16) == signed_value(
            x as int,
            bit_width as nat,
        ),
{
    let below: u32 = (bit_width - 1) as u32;
    vstd::bits::lemma_u32_pow2_no_overflow(bit_width as nat);
    vstd::bits::lemma_u32_pow2_no_overflow(below as nat);
    vstd::bits::lemma_u32_shl_is_mul(1, bit_width);
    vstd::bits::lemma_u32_shl_is_mul(1, below);
    vstd::arithmetic::power2::lemma2_to64();
    lemma_sign_extended_bits(x, bit_width);
}

/// Adding a sign-extended offset modulo 2^16 moves by the number that the
/// offset spells: forward for a positive one, backward for a negative one,
/// and round the ends of the address space.
pub proof fn lemma_offset_moves_by_signed_value(base: u16, x: u16, bit_width: u32)
    requires
        1 <= bit_width <= 16,
        x < pow2(bit_width as nat),
    ensures
        wrap_add(base, sign_extended(x, bit_width)) == (base + signed_value(
            x as int,
            bit_width as nat,
        )) % 0x1_0000,
{
    lemma_sign_extend_keeps_value(x, bit_width);
    vstd::arithmetic::power2::lemma2_to64();
}

} // verus!
