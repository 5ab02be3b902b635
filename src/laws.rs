//! Laws that relate the bit-vector types to the native integers they model.

use vstd::prelude::*;
use vstd::arithmetic::power2::{pow2, lemma2_to64, lemma2_to64_rest, lemma_pow2_pos};
use vstd::arithmetic::div_mod::{lemma_small_mod, lemma_mod_multiples_vanish};
use crate::bitvec::{bits_val, encode_seq, signed_of, wrap_unsigned, wrap_signed, lemma_encode_val};
use crate::arith::lemma_signed_round_trip;

verus! {

/// Encoding a value of the unsigned range of width `w` and reading the
/// bits back gives the value again.
pub proof fn lemma_unsigned_round_trip(v: int, w: nat)
    requires
        0 <= v < pow2(w),
    ensures
        bits_val(encode_seq(v, w)) == v,
{
    lemma_encode_val(v, w);
    lemma_small_mod(v as nat, pow2(w));
}

/// Encoding a value of the two's-complement range of width `w` and reading
/// the bits back as signed gives the value again.
pub proof fn lemma_signed_value_round_trip(v: int, w: nat)
    requires
        w > 0,
        -pow2((w - 1) as nat) <= v < pow2((w - 1) as nat),
    ensures
        signed_of(v % pow2(w) as int, w) == v,
{
    lemma_signed_round_trip(v, w);
}

/// Wrapping to width `w` removes whole multiples of `2^w`.
proof fn lemma_wrap_unsigned_shift(x: int, w: nat, k: int)
    requires
        0 <= x - k * pow2(w) < pow2(w),
    ensures
        wrap_unsigned(x, w) == x - k * pow2(w),
{
    let m = pow2(w) as int;
    lemma_pow2_pos(w);
    lemma_mod_multiples_vanish(k, x - k * m, m);
    lemma_small_mod((x - k * m) as nat, m as nat);
}

/// Wrapping to the signed range of width `w` removes whole multiples of `2^w`.
proof fn lemma_wrap_signed_shift(x: int, w: nat, k: int)
    requires
        w > 0,
        -pow2((w - 1) as nat) <= x - k * pow2(w) < pow2((w - 1) as nat),
    ensures
        wrap_signed(x, w) == x - k * pow2(w),
{
    let m = pow2(w) as int;
    lemma_pow2_pos(w);
    lemma_mod_multiples_vanish(k, x - k * m, m);
    lemma_signed_round_trip(x - k * m, w);
}

/// Bit-serial sums and differences of 8-bit unsigned values, and wrapped
/// products, are those of `u8`'s wrapping operations.
pub proof fn lemma_u8_wrapping(a: u8, b: u8)
    ensures
        wrap_unsigned(a + b, 8) == a.wrapping_add(b),
        wrap_unsigned(a - b, 8) == a.wrapping_sub(b),
        wrap_unsigned(a * b, 8) == a.wrapping_mul(b),
{
    lemma2_to64();
    lemma2_to64_rest();
    if a + b > u8::MAX {
        lemma_wrap_unsigned_shift(a + b, 8, 1);
    } else {
        lemma_wrap_unsigned_shift(a + b, 8, 0);
    }
    if a - b < 0 {
        lemma_wrap_unsigned_shift(a - b, 8, -1);
    } else {
        lemma_wrap_unsigned_shift(a - b, 8, 0);
    }
}

/// Bit-serial sums and differences of 8-bit signed values, and wrapped
/// products, are those of `i8`'s wrapping operations.
pub proof fn lemma_i8_wrapping(a: i8, b: i8)
    ensures
        wrap_signed(a + b, 8) == a.wrapping_add(b),
        wrap_signed(a - b, 8) == a.wrapping_sub(b),
        wrap_signed(a * b, 8) == a.wrapping_mul(b),
{
    lemma2_to64();
    lemma2_to64_rest();
    if a + b > i8::MAX {
        lemma_wrap_signed_shift(a + b, 8, 1);
    } else if a + b < i8::MIN {
        lemma_wrap_signed_shift(a + b, 8, -1);
    } else {
        lemma_wrap_signed_shift(a + b, 8, 0);
    }
    if a - b > i8::MAX {
        lemma_wrap_signed_shift(a - b, 8, 1);
    } else if a - b < i8::MIN {
        lemma_wrap_signed_shift(a - b, 8, -1);
    } else {
        lemma_wrap_signed_shift(a - b, 8, 0);
    }
}

/// Bit-serial sums and differences of 16-bit unsigned values, and wrapped
/// products, are those of `u16`'s wrapping operations.
pub proof fn lemma_u16_wrapping(a: u16, b: u16)
    ensures
        wrap_unsigned(a + b, 16) == a.wrapping_add(b),
        wrap_unsigned(a - b, 16) == a.wrapping_sub(b),
        wrap_unsigned(a * b, 16) == a.wrapping_mul(b),
{
    lemma2_to64();
    lemma2_to64_rest();
    if a + b > u16::MAX {
        lemma_wrap_unsigned_shift(a + b, 16, 1);
    } else {
        lemma_wrap_unsigned_shift(a + b, 16, 0);
    }
    if a - b < 0 {
        lemma_wrap_unsigned_shift(a - b, 16, -1);
    } else {
        lemma_wrap_unsigned_shift(a - b, 16, 0);
    }
}

/// Bit-serial sums and differences of 16-bit signed values, and wrapped
/// products, are those of `i16`'s wrapping operations.
pub proof fn lemma_i16_wrapping(a: i16, b: i16)
    ensures
        wrap_signed(a + b, 16) == a.wrapping_add(b),
        wrap_signed(a - b, 16) == a.wrapping_sub(b),
        wrap_signed(a * b, 16) == a.wrapping_mul(b),
{
    lemma2_to64();
    lemma2_to64_rest();
    if a + b > i16::MAX {
        lemma_wrap_signed_shift(a + b, 16, 1);
    } else if a + b < i16::MIN {
        lemma_wrap_signed_shift(a + b, 16, -1);
    } else {
        lemma_wrap_signed_shift(a + b, 16, 0);
    }
    if a - b > i16::MAX {
        lemma_wrap_signed_shift(a - b, 16, 1);
    } else if a - b < i16::MIN {
        lemma_wrap_signed_shift(a - b, 16, -1);
    } else {
        lemma_wrap_signed_shift(a - b, 16, 0);
    }
}

/// Bit-serial sums and differences of 32-bit unsigned values, and wrapped
/// products, are those of `u32`'s wrapping operations.
pub proof fn lemma_u32_wrapping(a: u32, b: u32)
    ensures
        wrap_unsigned(a + b, 32) == a.wrapping_add(b),
        wrap_unsigned(a - b, 32) == a.wrapping_sub(b),
        wrap_unsigned(a * b, 32) == a.wrapping_mul(b),
{
    lemma2_to64();
    lemma2_to64_rest();
    if a + b > u32::MAX {
        lemma_wrap_unsigned_shift(a + b, 32, 1);
    } else {
        lemma_wrap_unsigned_shift(a + b, 32, 0);
    }
    if a - b < 0 {
        lemma_wrap_unsigned_shift(a - b, 32, -1);
    } else {
        lemma_wrap_unsigned_shift(a - b, 32, 0);
    }
}

/// Bit-serial sums and differences of 32-bit signed values, and wrapped
/// products, are those of `i32`'s wrapping operations.
pub proof fn lemma_i32_wrapping(a: i32, b: i32)
    ensures
        wrap_signed(a + b, 32) == a.wrapping_add(b),
        wrap_signed(a - b, 32) == a.wrapping_sub(b),
        wrap_signed(a * b, 32) == a.wrapping_mul(b),
{
    lemma2_to64();
    lemma2_to64_rest();
    if a + b > i32::MAX {
        lemma_wrap_signed_shift(a + b, 32, 1);
    } else if a + b < i32::MIN {
        lemma_wrap_signed_shift(a + b, 32, -1);
    } else {
        lemma_wrap_signed_shift(a + b, 32, 0);
    }
    if a - b > i32::MAX {
        lemma_wrap_signed_shift(a - b, 32, 1);
    } else if a - b < i32::MIN {
        lemma_wrap_signed_shift(a - b, 32, -1);
    } else {
        lemma_wrap_signed_shift(a - b, 32, 0);
    }
}

/// Bit-serial sums and differences of 64-bit unsigned values, and wrapped
/// products, are those of `u64`'s wrapping operations.
pub proof fn lemma_u64_wrapping(a: u64, b: u64)
    ensures
        wrap_unsigned(a + b, 64) == a.wrapping_add(b),
        wrap_unsigned(a - b, 64) == a.wrapping_sub(b),
        wrap_unsigned(a * b, 64) == a.wrapping_mul(b),
{
    lemma2_to64();
    lemma2_to64_rest();
    if a + b > u64::MAX {
        lemma_wrap_unsigned_shift(a + b, 64, 1);
    } else {
        lemma_wrap_unsigned_shift(a + b, 64, 0);
    }
    if a - b < 0 {
        lemma_wrap_unsigned_shift(a - b, 64, -1);
    } else {
        lemma_wrap_unsigned_shift(a - b, 64, 0);
    }
}

/// Bit-serial sums and differences of 64-bit signed values, and wrapped
/// products, are those of `i64`'s wrapping operations.
pub proof fn lemma_i64_wrapping(a: i64, b: i64)
    ensures
        wrap_signed(a + b, 64) == a.wrapping_add(b),
        wrap_signed(a - b, 64) == a.wrapping_sub(b),
        wrap_signed(a * b, 64) == a.wrapping_mul(b),
{
    lemma2_to64();
    lemma2_to64_rest();
    if a + b > i64::MAX {
        lemma_wrap_signed_shift(a + b, 64, 1);
    } else if a + b < i64::MIN {
        lemma_wrap_signed_shift(a + b, 64, -1);
    } else {
        lemma_wrap_signed_shift(a + b, 64, 0);
    }
    if a - b > i64::MAX {
        lemma_wrap_signed_shift(a - b, 64, 1);
    } else if a - b < i64::MIN {
        lemma_wrap_signed_shift(a - b, 64, -1);
    } else {
        lemma_wrap_signed_shift(a - b, 64, 0);
    }
}

} // verus!
