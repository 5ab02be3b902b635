//! Signed integers of 8, 16, 32 and 64 bits in two's complement, wrapping
//! on overflow. Addition and subtraction run bit-serially; the other
//! operations go through the native machine word.

use vstd::prelude::*;
use vstd::arithmetic::power2::{pow2, lemma2_to64, lemma2_to64_rest};
use crate::bit::Bit;
use crate::bitvec::{bits_val, signed_of, wrap_signed, not_seq, ripple_add, ripple_sub, not_bits, lemma_bits_val_bound, lemma_bits_val_injective};
use crate::arith::{trunc_div, trunc_rem, mul_bits, sdiv_bits, srem_bits, decode_signed, encode_signed, lemma_signed_round_trip, lemma_signed_of_range, lemma_signed_congruent, lemma_signed_not};
use crate::text::{signed_decimal_chars, render_signed};
use crate::error::NumError;

verus! {

/// Signed 8-bit integer in two's complement; `bits[0]` is the least
/// significant bit and `bits[7]` carries the weight `-2^7`.
#[derive(Debug, Clone, Copy, PartialEq, Eq, Hash)]
pub struct Z8 {
    pub bits: [Bit; 8],
}

impl View for Z8 {
    type V = Seq<Bit>;

    open spec fn view(&self) -> Seq<Bit> {
        self.bits@
    }
}

impl Z8 {
    /// The represented value, in `[-2^7, 2^7)`.
    pub open spec fn value(&self) -> int {
        signed_of(bits_val(self@) as int, 8)
    }

    /// The value with the given bits.
    pub fn new(bits: [Bit; 8]) -> (r: Z8)
        ensures
            r@ == bits@,
    {
        Z8 { bits }
    }

    /// The two's-complement bits of a native value.
    pub fn from_i8(value: i8) -> (r: Z8)
        ensures
            r.value() == value,
            bits_val(r@) == value as int % pow2(8) as int,
    {
        let r = Z8 { bits: encode_signed(value as i64) };
        proof {
            lemma2_to64();
            lemma2_to64_rest();
            lemma_signed_round_trip(value as int, 8);
        }
        r
    }

    /// The native value of the bits.
    pub fn to_i8(&self) -> (r: i8)
        ensures
            r == self.value(),
    {
        proof {
            lemma2_to64();
            lemma2_to64_rest();
            lemma_bits_val_bound(self@);
            lemma_signed_of_range(bits_val(self@) as int, 8);
        }
        decode_signed(&self.bits) as i8
    }

    /// Sum wrapped into the signed range, by a ripple-carry adder.
    pub fn add(&self, other: &Z8) -> (r: Z8)
        ensures
            r.value() == wrap_signed(self.value() + other.value(), 8),
    {
        proof {
            lemma_bits_val_bound(self@);
            lemma_bits_val_bound(other@);
            lemma_signed_congruent(bits_val(self@) as int, bits_val(other@) as int, 8);
        }
        Z8 { bits: ripple_add(&self.bits, &other.bits) }
    }

    /// Difference wrapped into the signed range, by a ripple-borrow subtractor.
    pub fn sub(&self, other: &Z8) -> (r: Z8)
        ensures
            r.value() == wrap_signed(self.value() - other.value(), 8),
    {
        proof {
            lemma_bits_val_bound(self@);
            lemma_bits_val_bound(other@);
            lemma_signed_congruent(bits_val(self@) as int, bits_val(other@) as int, 8);
        }
        Z8 { bits: ripple_sub(&self.bits, &other.bits) }
    }

    /// Product wrapped into the signed range.
    pub fn mul(&self, other: &Z8) -> (r: Z8)
        ensures
            r.value() == wrap_signed(self.value() * other.value(), 8),
    {
        proof {
            lemma_bits_val_bound(self@);
            lemma_bits_val_bound(other@);
            lemma_signed_congruent(bits_val(self@) as int, bits_val(other@) as int, 8);
        }
        Z8 { bits: mul_bits(&self.bits, &other.bits) }
    }

    /// Quotient rounded toward zero, wrapped into the signed range (the
    /// minimum divided by -1 gives the minimum); `DivisionByZero` when
    /// `other` is zero.
    pub fn div(&self, other: &Z8) -> (r: Result<Z8, NumError>)
        ensures
            match r {
                Ok(q) => other.value() != 0 && q.value() == wrap_signed(
                    trunc_div(self.value(), other.value()),
                    8,
                ),
                Err(e) => other.value() == 0 && e == NumError::DivisionByZero,
            },
    {
        match sdiv_bits(&self.bits, &other.bits) {
            Ok(bits) => Ok(Z8 { bits }),
            Err(e) => Err(e),
        }
    }

    /// Remainder with the sign of the dividend; `DivisionByZero` when
    /// `other` is zero.
    pub fn rem(&self, other: &Z8) -> (r: Result<Z8, NumError>)
        ensures
            match r {
                Ok(m) => other.value() != 0 && m.value() == trunc_rem(self.value(), other.value()),
                Err(e) => other.value() == 0 && e == NumError::DivisionByZero,
            },
    {
        match srem_bits(&self.bits, &other.bits) {
            Ok(bits) => Ok(Z8 { bits }),
            Err(e) => Err(e),
        }
    }

    /// One's complement: every stored bit flipped, which is `-x - 1`.
    pub fn not(&self) -> (r: Z8)
        ensures
            r@ == not_seq(self@),
            r.value() == -self.value() - 1,
    {
        let r = Z8 { bits: not_bits(&self.bits) };
        proof {
            lemma_signed_not(self@);
        }
        r
    }

    /// The decimal text of the value, with a leading `'-'` when negative.
    pub fn to_string(&self) -> (r: String)
        ensures
            r@ == signed_decimal_chars(self.value()),
    {
        render_signed(decode_signed(&self.bits))
    }
}

impl From<i8> for Z8 {
    fn from(value: i8) -> (r: Z8) {
        let r = Z8::from_i8(value);
        proof {
            let c = choose|z: Z8| z.value() == value as int;
            lemma_bits_val_bound(c@);
            lemma_bits_val_bound(r@);
            lemma2_to64();
            lemma_signed_of_range(bits_val(c@) as int, 8);
            lemma_signed_of_range(bits_val(r@) as int, 8);
            lemma_bits_val_injective(c@, r@);
            assert(c.bits =~= r.bits);
        }
        r
    }
}

impl vstd::std_specs::convert::FromSpecImpl<i8> for Z8 {
    open spec fn obeys_from_spec() -> bool {
        true
    }

    open spec fn from_spec(v: i8) -> Z8 {
        choose|z: Z8| z.value() == v as int
    }
}

impl From<Z8> for i8 {
    fn from(value: Z8) -> (r: i8) {
        value.to_i8()
    }
}

impl vstd::std_specs::convert::FromSpecImpl<Z8> for i8 {
    open spec fn obeys_from_spec() -> bool {
        true
    }

    open spec fn from_spec(v: Z8) -> i8 {
        v.value() as i8
    }
}

/// Signed 16-bit integer in two's complement; `bits[0]` is the least
/// significant bit and `bits[15]` carries the weight `-2^15`.
#[derive(Debug, Clone, Copy, PartialEq, Eq, Hash)]
pub struct Z16 {
    pub bits: [Bit; 16],
}

impl View for Z16 {
    type V = Seq<Bit>;

    open spec fn view(&self) -> Seq<Bit> {
        self.bits@
    }
}

impl Z16 {
    /// The represented value, in `[-2^15, 2^15)`.
    pub open spec fn value(&self) -> int {
        signed_of(bits_val(self@) as int, 16)
    }

    /// The value with the given bits.
    pub fn new(bits: [Bit; 16]) -> (r: Z16)
        ensures
            r@ == bits@,
    {
        Z16 { bits }
    }

    /// The two's-complement bits of a native value.
    pub fn from_i16(value: i16) -> (r: Z16)
        ensures
            r.value() == value,
            bits_val(r@) == value as int % pow2(16) as int,
    {
        let r = Z16 { bits: encode_signed(value as i64) };
        proof {
            lemma2_to64();
            lemma2_to64_rest();
            lemma_signed_round_trip(value as int, 16);
        }
        r
    }

    /// The native value of the bits.
    pub fn to_i16(&self) -> (r: i16)
        ensures
            r == self.value(),
    {
        proof {
            lemma2_to64();
            lemma2_to64_rest();
            lemma_bits_val_bound(self@);
            lemma_signed_of_range(bits_val(self@) as int, 16);
        }
        decode_signed(&self.bits) as i16
    }

    /// Sum wrapped into the signed range, by a ripple-carry adder.
    pub fn add(&self, other: &Z16) -> (r: Z16)
        ensures
            r.value() == wrap_signed(self.value() + other.value(), 16),
    {
        proof {
            lemma_bits_val_bound(self@);
            lemma_bits_val_bound(other@);
            lemma_signed_congruent(bits_val(self@) as int, bits_val(other@) as int, 16);
        }
        Z16 { bits: ripple_add(&self.bits, &other.bits) }
    }

    /// Difference wrapped into the signed range, by a ripple-borrow subtractor.
    pub fn sub(&self, other: &Z16) -> (r: Z16)
        ensures
            r.value() == wrap_signed(self.value() - other.value(), 16),
    {
        proof {
            lemma_bits_val_bound(self@);
            lemma_bits_val_bound(other@);
            lemma_signed_congruent(bits_val(self@) as int, bits_val(other@) as int, 16);
        }
        Z16 { bits: ripple_sub(&self.bits, &other.bits) }
    }

    /// Product wrapped into the signed range.
    pub fn mul(&self, other: &Z16) -> (r: Z16)
        ensures
            r.value() == wrap_signed(self.value() * other.value(), 16),
    {
        proof {
            lemma_bits_val_bound(self@);
            lemma_bits_val_bound(other@);
            lemma_signed_congruent(bits_val(self@) as int, bits_val(other@) as int, 16);
        }
        Z16 { bits: mul_bits(&self.bits, &other.bits) }
    }

    /// Quotient rounded toward zero, wrapped into the signed range (the
    /// minimum divided by -1 gives the minimum); `DivisionByZero` when
    /// `other` is zero.
    pub fn div(&self, other: &Z16) -> (r: Result<Z16, NumError>)
        ensures
            match r {
                Ok(q) => other.value() != 0 && q.value() == wrap_signed(
                    trunc_div(self.value(), other.value()),
                    16,
                ),
                Err(e) => other.value() == 0 && e == NumError::DivisionByZero,
            },
    {
        match sdiv_bits(&self.bits, &other.bits) {
            Ok(bits) => Ok(Z16 { bits }),
            Err(e) => Err(e),
        }
    }

    /// Remainder with the sign of the dividend; `DivisionByZero` when
    /// `other` is zero.
    pub fn rem(&self, other: &Z16) -> (r: Result<Z16, NumError>)
        ensures
            match r {
                Ok(m) => other.value() != 0 && m.value() == trunc_rem(self.value(), other.value()),
                Err(e) => other.value() == 0 && e == NumError::DivisionByZero,
            },
    {
        match srem_bits(&self.bits, &other.bits) {
            Ok(bits) => Ok(Z16 { bits }),
            Err(e) => Err(e),
        }
    }

    /// One's complement: every stored bit flipped, which is `-x - 1`.
    pub fn not(&self) -> (r: Z16)
        ensures
            r@ == not_seq(self@),
            r.value() == -self.value() - 1,
    {
        let r = Z16 { bits: not_bits(&self.bits) };
        proof {
            lemma_signed_not(self@);
        }
        r
    }

    /// The decimal text of the value, with a leading `'-'` when negative.
    pub fn to_string(&self) -> (r: String)
        ensures
            r@ == signed_decimal_chars(self.value()),
    {
        render_signed(decode_signed(&self.bits))
    }
}

impl From<i16> for Z16 {
    fn from(value: i16) -> (r: Z16) {
        let r = Z16::from_i16(value);
        proof {
            let c = choose|z: Z16| z.value() == value as int;
            lemma_bits_val_bound(c@);
            lemma_bits_val_bound(r@);
            lemma2_to64();
            lemma_signed_of_range(bits_val(c@) as int, 16);
            lemma_signed_of_range(bits_val(r@) as int, 16);
            lemma_bits_val_injective(c@, r@);
            assert(c.bits =~= r.bits);
        }
        r
    }
}

impl vstd::std_specs::convert::FromSpecImpl<i16> for Z16 {
    open spec fn obeys_from_spec() -> bool {
        true
    }

    open spec fn from_spec(v: i16) -> Z16 {
        choose|z: Z16| z.value() == v as int
    }
}

impl From<Z16> for i16 {
    fn from(value: Z16) -> (r: i16) {
        value.to_i16()
    }
}

impl vstd::std_specs::convert::FromSpecImpl<Z16> for i16 {
    open spec fn obeys_from_spec() -> bool {
        true
    }

    open spec fn from_spec(v: Z16) -> i16 {
        v.value() as i16
    }
}

/// Signed 32-bit integer in two's complement; `bits[0]` is the least
/// significant bit and `bits[31]` carries the weight `-2^31`.
#[derive(Debug, Clone, Copy, PartialEq, Eq, Hash)]
pub struct Z32 {
    pub bits: [Bit; 32],
}

impl View for Z32 {
    type V = Seq<Bit>;

    open spec fn view(&self) -> Seq<Bit> {
        self.bits@
    }
}

impl Z32 {
    /// The represented value, in `[-2^31, 2^31)`.
    pub open spec fn value(&self) -> int {
        signed_of(bits_val(self@) as int, 32)
    }

    /// The value with the given bits.
    pub fn new(bits: [Bit; 32]) -> (r: Z32)
        ensures
            r@ == bits@,
    {
        Z32 { bits }
    }

    /// The two's-complement bits of a native value.
    pub fn from_i32(value: i32) -> (r: Z32)
        ensures
            r.value() == value,
            bits_val(r@) == value as int % pow2(32) as int,
    {
        let r = Z32 { bits: encode_signed(value as i64) };
        proof {
            lemma2_to64();
            lemma2_to64_rest();
            lemma_signed_round_trip(value as int, 32);
        }
        r
    }

    /// The native value of the bits.
    pub fn to_i32(&self) -> (r: i32)
        ensures
            r == self.value(),
    {
        proof {
            lemma2_to64();
            lemma2_to64_rest();
            lemma_bits_val_bound(self@);
            lemma_signed_of_range(bits_val(self@) as int, 32);
        }
        decode_signed(&self.bits) as i32
    }

    /// Sum wrapped into the signed range, by a ripple-carry adder.
    pub fn add(&self, other: &Z32) -> (r: Z32)
        ensures
            r.value() == wrap_signed(self.value() + other.value(), 32),
    {
        proof {
            lemma_bits_val_bound(self@);
            lemma_bits_val_bound(other@);
            lemma_signed_congruent(bits_val(self@) as int, bits_val(other@) as int, 32);
        }
        Z32 { bits: ripple_add(&self.bits, &other.bits) }
    }

    /// Difference wrapped into the signed range, by a ripple-borrow subtractor.
    pub fn sub(&self, other: &Z32) -> (r: Z32)
        ensures
            r.value() == wrap_signed(self.value() - other.value(), 32),
    {
        proof {
            lemma_bits_val_bound(self@);
            lemma_bits_val_bound(other@);
            lemma_signed_congruent(bits_val(self@) as int, bits_val(other@) as int, 32);
        }
        Z32 { bits: ripple_sub(&self.bits, &other.bits) }
    }

    /// Product wrapped into the signed range.
    pub fn mul(&self, other: &Z32) -> (r: Z32)
        ensures
            r.value() == wrap_signed(self.value() * other.value(), 32),
    {
        proof {
            lemma_bits_val_bound(self@);
            lemma_bits_val_bound(other@);
            lemma_signed_congruent(bits_val(self@) as int, bits_val(other@) as int, 32);
        }
        Z32 { bits: mul_bits(&self.bits, &other.bits) }
    }

    /// Quotient rounded toward zero, wrapped into the signed range (the
    /// minimum divided by -1 gives the minimum); `DivisionByZero` when
    /// `other` is zero.
    pub fn div(&self, other: &Z32) -> (r: Result<Z32, NumError>)
        ensures
            match r {
                Ok(q) => other.value() != 0 && q.value() == wrap_signed(
                    trunc_div(self.value(), other.value()),
                    32,
                ),
                Err(e) => other.value() == 0 && e == NumError::DivisionByZero,
            },
    {
        match sdiv_bits(&self.bits, &other.bits) {
            Ok(bits) => Ok(Z32 { bits }),
            Err(e) => Err(e),
        }
    }

    /// Remainder with the sign of the dividend; `DivisionByZero` when
    /// `other` is zero.
    pub fn rem(&self, other: &Z32) -> (r: Result<Z32, NumError>)
        ensures
            match r {
                Ok(m) => other.value() != 0 && m.value() == trunc_rem(self.value(), other.value()),
                Err(e) => other.value() == 0 && e == NumError::DivisionByZero,
            },
    {
        match srem_bits(&self.bits, &other.bits) {
            Ok(bits) => Ok(Z32 { bits }),
            Err(e) => Err(e),
        }
    }

    /// One's complement: every stored bit flipped, which is `-x - 1`.
    pub fn not(&self) -> (r: Z32)
        ensures
            r@ == not_seq(self@),
            r.value() == -self.value() - 1,
    {
        let r = Z32 { bits: not_bits(&self.bits) };
        proof {
            lemma_signed_not(self@);
        }
        r
    }

    /// The decimal text of the value, with a leading `'-'` when negative.
    pub fn to_string(&self) -> (r: String)
        ensures
            r@ == signed_decimal_chars(self.value()),
    {
        render_signed(decode_signed(&self.bits))
    }
}

impl From<i32> for Z32 {
    fn from(value: i32) -> (r: Z32) {
        let r = Z32::from_i32(value);
        proof {
            let c = choose|z: Z32| z.value() == value as int;
            lemma_bits_val_bound(c@);
            lemma_bits_val_bound(r@);
            lemma2_to64();
            lemma_signed_of_range(bits_val(c@) as int, 32);
            lemma_signed_of_range(bits_val(r@) as int, 32);
            lemma_bits_val_injective(c@, r@);
            assert(c.bits =~= r.bits);
        }
        r
    }
}

impl vstd::std_specs::convert::FromSpecImpl<i32> for Z32 {
    open spec fn obeys_from_spec() -> bool {
        true
    }

    open spec fn from_spec(v: i32) -> Z32 {
        choose|z: Z32| z.value() == v as int
    }
}

impl From<Z32> for i32 {
    fn from(value: Z32) -> (r: i32) {
        value.to_i32()
    }
}

impl vstd::std_specs::convert::FromSpecImpl<Z32> for i32 {
    open spec fn obeys_from_spec() -> bool {
        true
    }

    open spec fn from_spec(v: Z32) -> i32 {
        v.value() as i32
    }
}

/// Signed 64-bit integer in two's complement; `bits[0]` is the least
/// significant bit and `bits[63]` carries the weight `-2^63`.
#[derive(Debug, Clone, Copy, PartialEq, Eq, Hash)]
pub struct Z64 {
    pub bits: [Bit; 64],
}

impl View for Z64 {
    type V = Seq<Bit>;

    open spec fn view(&self) -> Seq<Bit> {
        self.bits@
    }
}

impl Z64 {
    /// The represented value, in `[-2^63, 2^63)`.
    pub open spec fn value(&self) -> int {
        signed_of(bits_val(self@) as int, 64)
    }

    /// The value with the given bits.
    pub fn new(bits: [Bit; 64]) -> (r: Z64)
        ensures
            r@ == bits@,
    {
        Z64 { bits }
    }

    /// The two's-complement bits of a native value.
    pub fn from_i64(value: i64) -> (r: Z64)
        ensures
            r.value() == value,
            bits_val(r@) == value as int % pow2(64) as int,
    {
        let r = Z64 { bits: encode_signed(value) };
        proof {
            lemma2_to64();
            lemma2_to64_rest();
            lemma_signed_round_trip(value as int, 64);
        }
        r
    }

    /// The native value of the bits.
    pub fn to_i64(&self) -> (r: i64)
        ensures
            r == self.value(),
    {
        proof {
            lemma2_to64();
            lemma2_to64_rest();
            lemma_bits_val_bound(self@);
            lemma_signed_of_range(bits_val(self@) as int, 64);
        }
        decode_signed(&self.bits)
    }

    /// Sum wrapped into the signed range, by a ripple-carry adder.
    pub fn add(&self, other: &Z64) -> (r: Z64)
        ensures
            r.value() == wrap_signed(self.value() + other.value(), 64),
    {
        proof {
            lemma_bits_val_bound(self@);
            lemma_bits_val_bound(other@);
            lemma_signed_congruent(bits_val(self@) as int, bits_val(other@) as int, 64);
        }
        Z64 { bits: ripple_add(&self.bits, &other.bits) }
    }

    /// Difference wrapped into the signed range, by a ripple-borrow subtractor.
    pub fn sub(&self, other: &Z64) -> (r: Z64)
        ensures
            r.value() == wrap_signed(self.value() - other.value(), 64),
    {
        proof {
            lemma_bits_val_bound(self@);
            lemma_bits_val_bound(other@);
            lemma_signed_congruent(bits_val(self@) as int, bits_val(other@) as int, 64);
        }
        Z64 { bits: ripple_sub(&self.bits, &other.bits) }
    }

    /// Product wrapped into the signed range.
    pub fn mul(&self, other: &Z64) -> (r: Z64)
        ensures
            r.value() == wrap_signed(self.value() * other.value(), 64),
    {
        proof {
            lemma_bits_val_bound(self@);
            lemma_bits_val_bound(other@);
            lemma_signed_congruent(bits_val(self@) as int, bits_val(other@) as int, 64);
        }
        Z64 { bits: mul_bits(&self.bits, &other.bits) }
    }

    /// Quotient rounded toward zero, wrapped into the signed range (the
    /// minimum divided by -1 gives the minimum); `DivisionByZero` when
    /// `other` is zero.
    pub fn div(&self, other: &Z64) -> (r: Result<Z64, NumError>)
        ensures
            match r {
                Ok(q) => other.value() != 0 && q.value() == wrap_signed(
                    trunc_div(self.value(), other.value()),
                    64,
                ),
                Err(e) => other.value() == 0 && e == NumError::DivisionByZero,
            },
    {
        match sdiv_bits(&self.bits, &other.bits) {
            Ok(bits) => Ok(Z64 { bits }),
            Err(e) => Err(e),
        }
    }

    /// Remainder with the sign of the dividend; `DivisionByZero` when
    /// `other` is zero.
    pub fn rem(&self, other: &Z64) -> (r: Result<Z64, NumError>)
        ensures
            match r {
                Ok(m) => other.value() != 0 && m.value() == trunc_rem(self.value(), other.value()),
                Err(e) => other.value() == 0 && e == NumError::DivisionByZero,
            },
    {
        match srem_bits(&self.bits, &other.bits) {
            Ok(bits) => Ok(Z64 { bits }),
            Err(e) => Err(e),
        }
    }

    /// One's complement: every stored bit flipped, which is `-x - 1`.
    pub fn not(&self) -> (r: Z64)
        ensures
            r@ == not_seq(self@),
            r.value() == -self.value() - 1,
    {
        let r = Z64 { bits: not_bits(&self.bits) };
        proof {
            lemma_signed_not(self@);
        }
        r
    }

    /// The decimal text of the value, with a leading `'-'` when negative.
    pub fn to_string(&self) -> (r: String)
        ensures
            r@ == signed_decimal_chars(self.value()),
    {
        render_signed(decode_signed(&self.bits))
    }
}

impl From<i64> for Z64 {
    fn from(value: i64) -> (r: Z64) {
        let r = Z64::from_i64(value);
        proof {
            let c = choose|z: Z64| z.value() == value as int;
            lemma_bits_val_bound(c@);
            lemma_bits_val_bound(r@);
            lemma2_to64();
            lemma_signed_of_range(bits_val(c@) as int, 64);
            lemma_signed_of_range(bits_val(r@) as int, 64);
            lemma_bits_val_injective(c@, r@);
            assert(c.bits =~= r.bits);
        }
        r
    }
}

impl vstd::std_specs::convert::FromSpecImpl<i64> for Z64 {
    open spec fn obeys_from_spec() -> bool {
        true
    }

    open spec fn from_spec(v: i64) -> Z64 {
        choose|z: Z64| z.value() == v as int
    }
}

impl From<Z64> for i64 {
    fn from(value: Z64) -> (r: i64) {
        value.to_i64()
    }
}

impl vstd::std_specs::convert::FromSpecImpl<Z64> for i64 {
    open spec fn obeys_from_spec() -> bool {
        true
    }

    open spec fn from_spec(v: Z64) -> i64 {
        v.value() as i64
    }
}

} // verus!
