//! Unsigned integers of 8, 16, 32 and 64 bits with modular arithmetic.
//! Addition and subtraction run bit-serially; the other operations go
//! through the native machine word.

use vstd::prelude::*;
use vstd::arithmetic::power2::pow2;
use crate::bit::Bit;
use crate::bitvec::{bits_val, encode_seq, wrap_unsigned, shl_seq, shr_seq, encode, decode, ripple_add, ripple_sub, shift_left_bits, shift_right_bits, rotate_left_bits, rotate_right_bits, reverse_bits_of, count_bits, lemma_encode_val, lemma_bits_val_bound, lemma_shl_val, lemma_shr_val};
use crate::arith::{mul_bits, udiv_bits, urem_bits};
use crate::text::{is_binary_text, parse_seq, decimal_chars, parse_bits, render_unsigned};
use crate::error::NumError;
use crate::traits::{BitCount, BitwiseRotate, BitwiseReverse};
use crate::container::Byte;

verus! {

/// Unsigned 8-bit integer; `bits[0]` is the least significant bit.
#[derive(Debug, Clone, Copy, PartialEq, Eq, Hash)]
pub struct N8 {
    pub bits: [Bit; 8],
}

impl View for N8 {
    type V = Seq<Bit>;

    open spec fn view(&self) -> Seq<Bit> {
        self.bits@
    }
}

impl N8 {
    /// The represented value, in `[0, 2^8)`.
    pub open spec fn value(&self) -> nat {
        bits_val(self@)
    }

    /// The value with the given bits.
    pub fn new(bits: [Bit; 8]) -> (r: N8)
        ensures
            r@ == bits@,
    {
        N8 { bits }
    }

    /// The value with the given bits.
    pub fn new_from_bits(bits: [Bit; 8]) -> (r: N8)
        ensures
            r@ == bits@,
    {
        N8 { bits }
    }

    /// The same bits as a byte container.
    pub fn as_byte(&self) -> (r: Byte)
        ensures
            r@ == self@,
    {
        Byte::new(self.bits)
    }

    /// The value zero.
    pub fn zero() -> (r: N8)
        ensures
            r.value() == 0,
            r@ == encode_seq(0, 8),
    {
        N8::from_u8(0)
    }

    /// The bits of a native value.
    pub fn from_u8(value: u8) -> (r: N8)
        ensures
            r@ == encode_seq(value as int, 8),
            r.value() == value,
    {
        proof {
            lemma_encode_val(value as int, 8);
            vstd::arithmetic::power2::lemma2_to64();
            vstd::arithmetic::div_mod::lemma_small_mod(value as nat, 256);
        }
        N8 { bits: encode(value as u64) }
    }

    /// The native value of the bits.
    pub fn to_u8(&self) -> (r: u8)
        ensures
            r == self.value(),
    {
        proof {
            lemma_bits_val_bound(self@);
            vstd::arithmetic::power2::lemma2_to64();
        }
        decode(&self.bits) as u8
    }

    /// Sum modulo `2^8`, by a ripple-carry adder.
    pub fn add(&self, other: &N8) -> (r: N8)
        ensures
            r.value() == wrap_unsigned(self.value() + other.value() as int, 8),
    {
        N8 { bits: ripple_add(&self.bits, &other.bits) }
    }

    /// Difference modulo `2^8`, by a ripple-borrow subtractor.
    pub fn sub(&self, other: &N8) -> (r: N8)
        ensures
            r.value() == wrap_unsigned(self.value() - other.value(), 8),
    {
        N8 { bits: ripple_sub(&self.bits, &other.bits) }
    }

    /// Product modulo `2^8`.
    pub fn mul(&self, other: &N8) -> (r: N8)
        ensures
            r.value() == wrap_unsigned(self.value() * other.value() as int, 8),
    {
        N8 { bits: mul_bits(&self.bits, &other.bits) }
    }

    /// Quotient rounded down; `DivisionByZero` when `other` is zero.
    pub fn div(&self, other: &N8) -> (r: Result<N8, NumError>)
        ensures
            match r {
                Ok(q) => other.value() != 0 && q.value() == self.value() / other.value(),
                Err(e) => other.value() == 0 && e == NumError::DivisionByZero,
            },
    {
        match udiv_bits(&self.bits, &other.bits) {
            Ok(bits) => Ok(N8 { bits }),
            Err(e) => Err(e),
        }
    }

    /// Remainder of the division; `DivisionByZero` when `other` is zero.
    pub fn rem(&self, other: &N8) -> (r: Result<N8, NumError>)
        ensures
            match r {
                Ok(m) => other.value() != 0 && m.value() == self.value() % other.value(),
                Err(e) => other.value() == 0 && e == NumError::DivisionByZero,
            },
    {
        match urem_bits(&self.bits, &other.bits) {
            Ok(bits) => Ok(N8 { bits }),
            Err(e) => Err(e),
        }
    }

    /// Logical shift toward the high end; `Zero` fills, and a shift by 8 or
    /// more gives zero.
    pub fn shift_left(&self, shift: u32) -> (r: N8)
        ensures
            r@ == shl_seq(self@, shift as nat),
            r.value() == (self.value() * pow2(shift as nat)) % pow2(8),
    {
        let r = N8 { bits: shift_left_bits(&self.bits, shift as usize) };
        proof {
            lemma_shl_val(self@, shift as nat);
        }
        r
    }

    /// Logical shift toward the low end; `Zero` fills, and a shift by 8 or
    /// more gives zero.
    pub fn shift_right(&self, shift: u32) -> (r: N8)
        ensures
            r@ == shr_seq(self@, shift as nat),
            r.value() == self.value() / pow2(shift as nat),
    {
        let r = N8 { bits: shift_right_bits(&self.bits, shift as usize) };
        proof {
            lemma_shr_val(self@, shift as nat);
        }
        r
    }

    /// Binary text, most significant character first, at most 8 characters;
    /// missing high bits are zero.
    pub fn parse(s: &str) -> (r: Result<N8, NumError>)
        ensures
            match r {
                Ok(n) => is_binary_text(s@, 8) && n@ == parse_seq(s@, 8),
                Err(e) => !is_binary_text(s@, 8) && e == NumError::ParseError,
            },
    {
        match parse_bits(s) {
            Ok(bits) => Ok(N8 { bits }),
            Err(e) => Err(e),
        }
    }

    /// The decimal text of the value.
    pub fn to_string(&self) -> (r: String)
        ensures
            r@ == decimal_chars(self.value()),
    {
        render_unsigned(decode(&self.bits))
    }
}

impl BitCount for N8 {
    fn count_ones(&self) -> (r: u32) {
        count_bits(&self.bits, Bit::One)
    }

    fn count_zeros(&self) -> (r: u32) {
        count_bits(&self.bits, Bit::Zero)
    }
}

impl BitwiseRotate for N8 {
    fn rotate_left(&mut self, n: u32) {
        self.bits = rotate_left_bits(&self.bits, n as usize);
    }

    fn rotate_right(&mut self, n: u32) {
        self.bits = rotate_right_bits(&self.bits, n as usize);
    }
}

impl BitwiseReverse for N8 {
    fn reverse_bits(&mut self) {
        self.bits = reverse_bits_of(&self.bits);
    }
}

impl From<u8> for N8 {
    fn from(value: u8) -> (r: N8) {
        let r = N8::from_u8(value);
        proof {
            let c = choose|n: N8| n@ == encode_seq(value as int, 8);
            assert(c.bits =~= r.bits);
        }
        r
    }
}

impl vstd::std_specs::convert::FromSpecImpl<u8> for N8 {
    open spec fn obeys_from_spec() -> bool {
        true
    }

    open spec fn from_spec(v: u8) -> N8 {
        choose|n: N8| n@ == encode_seq(v as int, 8)
    }
}

impl From<N8> for u8 {
    fn from(value: N8) -> (r: u8) {
        value.to_u8()
    }
}

impl vstd::std_specs::convert::FromSpecImpl<N8> for u8 {
    open spec fn obeys_from_spec() -> bool {
        true
    }

    open spec fn from_spec(v: N8) -> u8 {
        v.value() as u8
    }
}

impl PartialOrd for N8 {
    fn partial_cmp(&self, other: &N8) -> (r: Option<core::cmp::Ordering>) {
        let a = self.to_u8();
        let b = other.to_u8();
        if a < b {
            Some(core::cmp::Ordering::Less)
        } else if a > b {
            Some(core::cmp::Ordering::Greater)
        } else {
            Some(core::cmp::Ordering::Equal)
        }
    }
}

impl vstd::std_specs::cmp::PartialOrdSpecImpl for N8 {
    open spec fn obeys_partial_cmp_spec() -> bool {
        true
    }

    open spec fn partial_cmp_spec(&self, other: &N8) -> Option<core::cmp::Ordering> {
        if self.value() < other.value() {
            Some(core::cmp::Ordering::Less)
        } else if self.value() > other.value() {
            Some(core::cmp::Ordering::Greater)
        } else {
            Some(core::cmp::Ordering::Equal)
        }
    }
}

impl core::str::FromStr for N8 {
    type Err = NumError;

    fn from_str(s: &str) -> (r: Result<N8, NumError>)
        ensures
            match r {
                Ok(n) => is_binary_text(s@, 8) && n@ == parse_seq(s@, 8),
                Err(e) => !is_binary_text(s@, 8) && e == NumError::ParseError,
            },
    {
        N8::parse(s)
    }
}

/// Unsigned 16-bit integer; `bits[0]` is the least significant bit.
#[derive(Debug, Clone, Copy, PartialEq, Eq, Hash)]
pub struct N16 {
    pub bits: [Bit; 16],
}

impl View for N16 {
    type V = Seq<Bit>;

    open spec fn view(&self) -> Seq<Bit> {
        self.bits@
    }
}

impl N16 {
    /// The represented value, in `[0, 2^16)`.
    pub open spec fn value(&self) -> nat {
        bits_val(self@)
    }

    /// The value with the given bits.
    pub fn new(bits: [Bit; 16]) -> (r: N16)
        ensures
            r@ == bits@,
    {
        N16 { bits }
    }

    /// The value zero.
    pub fn zero() -> (r: N16)
        ensures
            r.value() == 0,
            r@ == encode_seq(0, 16),
    {
        N16::from_u16(0)
    }

    /// The bits of a native value.
    pub fn from_u16(value: u16) -> (r: N16)
        ensures
            r@ == encode_seq(value as int, 16),
            r.value() == value,
    {
        proof {
            lemma_encode_val(value as int, 16);
            vstd::arithmetic::power2::lemma2_to64();
            vstd::arithmetic::power2::lemma2_to64_rest();
            vstd::arithmetic::div_mod::lemma_small_mod(value as nat, pow2(16));
        }
        N16 { bits: encode(value as u64) }
    }

    /// The native value of the bits.
    pub fn to_u16(&self) -> (r: u16)
        ensures
            r == self.value(),
    {
        proof {
            lemma_bits_val_bound(self@);
            vstd::arithmetic::power2::lemma2_to64();
            vstd::arithmetic::power2::lemma2_to64_rest();
        }
        decode(&self.bits) as u16
    }

    /// Sum modulo `2^16`, by a ripple-carry adder.
    pub fn add(&self, other: &N16) -> (r: N16)
        ensures
            r.value() == wrap_unsigned(self.value() + other.value() as int, 16),
    {
        N16 { bits: ripple_add(&self.bits, &other.bits) }
    }

    /// Difference modulo `2^16`, by a ripple-borrow subtractor.
    pub fn sub(&self, other: &N16) -> (r: N16)
        ensures
            r.value() == wrap_unsigned(self.value() - other.value(), 16),
    {
        N16 { bits: ripple_sub(&self.bits, &other.bits) }
    }

    /// The full product, which always fits in 32 bits.
    pub fn mul(&self, other: &N16) -> (r: N32)
        ensures
            r.value() == self.value() * other.value(),
    {
        let a = self.to_u16() as u32;
        let b = other.to_u16() as u32;
        assert(a * b <= 65535 * 65535) by (nonlinear_arith)
            requires
                a <= 65535,
                b <= 65535,
        ;
        N32::from_u32(a * b)
    }

    /// Quotient rounded down; `DivisionByZero` when `other` is zero.
    pub fn div(&self, other: &N16) -> (r: Result<N16, NumError>)
        ensures
            match r {
                Ok(q) => other.value() != 0 && q.value() == self.value() / other.value(),
                Err(e) => other.value() == 0 && e == NumError::DivisionByZero,
            },
    {
        match udiv_bits(&self.bits, &other.bits) {
            Ok(bits) => Ok(N16 { bits }),
            Err(e) => Err(e),
        }
    }

    /// Remainder of the division; `DivisionByZero` when `other` is zero.
    pub fn rem(&self, other: &N16) -> (r: Result<N16, NumError>)
        ensures
            match r {
                Ok(m) => other.value() != 0 && m.value() == self.value() % other.value(),
                Err(e) => other.value() == 0 && e == NumError::DivisionByZero,
            },
    {
        match urem_bits(&self.bits, &other.bits) {
            Ok(bits) => Ok(N16 { bits }),
            Err(e) => Err(e),
        }
    }

    /// Logical shift toward the high end; `Zero` fills, and a shift by 16 or
    /// more gives zero.
    pub fn shift_left(&self, shift: u32) -> (r: N16)
        ensures
            r@ == shl_seq(self@, shift as nat),
            r.value() == (self.value() * pow2(shift as nat)) % pow2(16),
    {
        let r = N16 { bits: shift_left_bits(&self.bits, shift as usize) };
        proof {
            lemma_shl_val(self@, shift as nat);
        }
        r
    }

    /// Logical shift toward the low end; `Zero` fills, and a shift by 16 or
    /// more gives zero.
    pub fn shift_right(&self, shift: u32) -> (r: N16)
        ensures
            r@ == shr_seq(self@, shift as nat),
            r.value() == self.value() / pow2(shift as nat),
    {
        let r = N16 { bits: shift_right_bits(&self.bits, shift as usize) };
        proof {
            lemma_shr_val(self@, shift as nat);
        }
        r
    }

    /// Binary text, most significant character first, at most 16 characters;
    /// missing high bits are zero.
    pub fn parse(s: &str) -> (r: Result<N16, NumError>)
        ensures
            match r {
                Ok(n) => is_binary_text(s@, 16) && n@ == parse_seq(s@, 16),
                Err(e) => !is_binary_text(s@, 16) && e == NumError::ParseError,
            },
    {
        match parse_bits(s) {
            Ok(bits) => Ok(N16 { bits }),
            Err(e) => Err(e),
        }
    }

    /// The decimal text of the value.
    pub fn to_string(&self) -> (r: String)
        ensures
            r@ == decimal_chars(self.value()),
    {
        render_unsigned(decode(&self.bits))
    }
}

impl BitCount for N16 {
    fn count_ones(&self) -> (r: u32) {
        count_bits(&self.bits, Bit::One)
    }

    fn count_zeros(&self) -> (r: u32) {
        count_bits(&self.bits, Bit::Zero)
    }
}

impl BitwiseRotate for N16 {
    fn rotate_left(&mut self, n: u32) {
        self.bits = rotate_left_bits(&self.bits, n as usize);
    }

    fn rotate_right(&mut self, n: u32) {
        self.bits = rotate_right_bits(&self.bits, n as usize);
    }
}

impl BitwiseReverse for N16 {
    fn reverse_bits(&mut self) {
        self.bits = reverse_bits_of(&self.bits);
    }
}

impl From<u16> for N16 {
    fn from(value: u16) -> (r: N16) {
        let r = N16::from_u16(value);
        proof {
            let c = choose|n: N16| n@ == encode_seq(value as int, 16);
            assert(c.bits =~= r.bits);
        }
        r
    }
}

impl vstd::std_specs::convert::FromSpecImpl<u16> for N16 {
    open spec fn obeys_from_spec() -> bool {
        true
    }

    open spec fn from_spec(v: u16) -> N16 {
        choose|n: N16| n@ == encode_seq(v as int, 16)
    }
}

impl From<N16> for u16 {
    fn from(value: N16) -> (r: u16) {
        value.to_u16()
    }
}

impl vstd::std_specs::convert::FromSpecImpl<N16> for u16 {
    open spec fn obeys_from_spec() -> bool {
        true
    }

    open spec fn from_spec(v: N16) -> u16 {
        v.value() as u16
    }
}

impl PartialOrd for N16 {
    fn partial_cmp(&self, other: &N16) -> (r: Option<core::cmp::Ordering>) {
        let a = self.to_u16();
        let b = other.to_u16();
        if a < b {
            Some(core::cmp::Ordering::Less)
        } else if a > b {
            Some(core::cmp::Ordering::Greater)
        } else {
            Some(core::cmp::Ordering::Equal)
        }
    }
}

impl vstd::std_specs::cmp::PartialOrdSpecImpl for N16 {
    open spec fn obeys_partial_cmp_spec() -> bool {
        true
    }

    open spec fn partial_cmp_spec(&self, other: &N16) -> Option<core::cmp::Ordering> {
        if self.value() < other.value() {
            Some(core::cmp::Ordering::Less)
        } else if self.value() > other.value() {
            Some(core::cmp::Ordering::Greater)
        } else {
            Some(core::cmp::Ordering::Equal)
        }
    }
}

impl core::str::FromStr for N16 {
    type Err = NumError;

    fn from_str(s: &str) -> (r: Result<N16, NumError>)
        ensures
            match r {
                Ok(n) => is_binary_text(s@, 16) && n@ == parse_seq(s@, 16),
                Err(e) => !is_binary_text(s@, 16) && e == NumError::ParseError,
            },
    {
        N16::parse(s)
    }
}

/// Unsigned 32-bit integer; `bits[0]` is the least significant bit.
#[derive(Debug, Clone, Copy, PartialEq, Eq, Hash)]
pub struct N32 {
    pub bits: [Bit; 32],
}

impl View for N32 {
    type V = Seq<Bit>;

    open spec fn view(&self) -> Seq<Bit> {
        self.bits@
    }
}

impl N32 {
    /// The represented value, in `[0, 2^32)`.
    pub open spec fn value(&self) -> nat {
        bits_val(self@)
    }

    /// The value with the given bits.
    pub fn new(bits: [Bit; 32]) -> (r: N32)
        ensures
            r@ == bits@,
    {
        N32 { bits }
    }

    /// The value zero.
    pub fn zero() -> (r: N32)
        ensures
            r.value() == 0,
            r@ == encode_seq(0, 32),
    {
        N32::from_u32(0)
    }

    /// The bits of a native value.
    pub fn from_u32(value: u32) -> (r: N32)
        ensures
            r@ == encode_seq(value as int, 32),
            r.value() == value,
    {
        proof {
            lemma_encode_val(value as int, 32);
            vstd::arithmetic::power2::lemma2_to64();
            vstd::arithmetic::power2::lemma2_to64_rest();
            vstd::arithmetic::div_mod::lemma_small_mod(value as nat, pow2(32));
        }
        N32 { bits: encode(value as u64) }
    }

    /// The native value of the bits.
    pub fn to_u32(&self) -> (r: u32)
        ensures
            r == self.value(),
    {
        proof {
            lemma_bits_val_bound(self@);
            vstd::arithmetic::power2::lemma2_to64();
            vstd::arithmetic::power2::lemma2_to64_rest();
        }
        decode(&self.bits) as u32
    }

    /// Sum modulo `2^32`, by a ripple-carry adder.
    pub fn add(&self, other: &N32) -> (r: N32)
        ensures
            r.value() == wrap_unsigned(self.value() + other.value() as int, 32),
    {
        N32 { bits: ripple_add(&self.bits, &other.bits) }
    }

    /// Difference modulo `2^32`, by a ripple-borrow subtractor.
    pub fn sub(&self, other: &N32) -> (r: N32)
        ensures
            r.value() == wrap_unsigned(self.value() - other.value(), 32),
    {
        N32 { bits: ripple_sub(&self.bits, &other.bits) }
    }

    /// Product modulo `2^32`.
    pub fn mul(&self, other: &N32) -> (r: N32)
        ensures
            r.value() == wrap_unsigned(self.value() * other.value() as int, 32),
    {
        N32 { bits: mul_bits(&self.bits, &other.bits) }
    }

    /// Quotient rounded down; `DivisionByZero` when `other` is zero.
    pub fn div(&self, other: &N32) -> (r: Result<N32, NumError>)
        ensures
            match r {
                Ok(q) => other.value() != 0 && q.value() == self.value() / other.value(),
                Err(e) => other.value() == 0 && e == NumError::DivisionByZero,
            },
    {
        match udiv_bits(&self.bits, &other.bits) {
            Ok(bits) => Ok(N32 { bits }),
            Err(e) => Err(e),
        }
    }

    /// Remainder of the division; `DivisionByZero` when `other` is zero.
    pub fn rem(&self, other: &N32) -> (r: Result<N32, NumError>)
        ensures
            match r {
                Ok(m) => other.value() != 0 && m.value() == self.value() % other.value(),
                Err(e) => other.value() == 0 && e == NumError::DivisionByZero,
            },
    {
        match urem_bits(&self.bits, &other.bits) {
            Ok(bits) => Ok(N32 { bits }),
            Err(e) => Err(e),
        }
    }

    /// Logical shift toward the high end; `Zero` fills, and a shift by 32 or
    /// more gives zero.
    pub fn shift_left(&self, shift: u32) -> (r: N32)
        ensures
            r@ == shl_seq(self@, shift as nat),
            r.value() == (self.value() * pow2(shift as nat)) % pow2(32),
    {
        let r = N32 { bits: shift_left_bits(&self.bits, shift as usize) };
        proof {
            lemma_shl_val(self@, shift as nat);
        }
        r
    }

    /// Logical shift toward the low end; `Zero` fills, and a shift by 32 or
    /// more gives zero.
    pub fn shift_right(&self, shift: u32) -> (r: N32)
        ensures
            r@ == shr_seq(self@, shift as nat),
            r.value() == self.value() / pow2(shift as nat),
    {
        let r = N32 { bits: shift_right_bits(&self.bits, shift as usize) };
        proof {
            lemma_shr_val(self@, shift as nat);
        }
        r
    }

    /// Binary text, most significant character first, at most 32 characters;
    /// missing high bits are zero.
    pub fn parse(s: &str) -> (r: Result<N32, NumError>)
        ensures
            match r {
                Ok(n) => is_binary_text(s@, 32) && n@ == parse_seq(s@, 32),
                Err(e) => !is_binary_text(s@, 32) && e == NumError::ParseError,
            },
    {
        match parse_bits(s) {
            Ok(bits) => Ok(N32 { bits }),
            Err(e) => Err(e),
        }
    }

    /// The decimal text of the value.
    pub fn to_string(&self) -> (r: String)
        ensures
            r@ == decimal_chars(self.value()),
    {
        render_unsigned(decode(&self.bits))
    }
}

impl BitCount for N32 {
    fn count_ones(&self) -> (r: u32) {
        count_bits(&self.bits, Bit::One)
    }

    fn count_zeros(&self) -> (r: u32) {
        count_bits(&self.bits, Bit::Zero)
    }
}

impl BitwiseRotate for N32 {
    fn rotate_left(&mut self, n: u32) {
        self.bits = rotate_left_bits(&self.bits, n as usize);
    }

    fn rotate_right(&mut self, n: u32) {
        self.bits = rotate_right_bits(&self.bits, n as usize);
    }
}

impl BitwiseReverse for N32 {
    fn reverse_bits(&mut self) {
        self.bits = reverse_bits_of(&self.bits);
    }
}

impl From<u32> for N32 {
    fn from(value: u32) -> (r: N32) {
        let r = N32::from_u32(value);
        proof {
            let c = choose|n: N32| n@ == encode_seq(value as int, 32);
            assert(c.bits =~= r.bits);
        }
        r
    }
}

impl vstd::std_specs::convert::FromSpecImpl<u32> for N32 {
    open spec fn obeys_from_spec() -> bool {
        true
    }

    open spec fn from_spec(v: u32) -> N32 {
        choose|n: N32| n@ == encode_seq(v as int, 32)
    }
}

impl From<N32> for u32 {
    fn from(value: N32) -> (r: u32) {
        value.to_u32()
    }
}

impl vstd::std_specs::convert::FromSpecImpl<N32> for u32 {
    open spec fn obeys_from_spec() -> bool {
        true
    }

    open spec fn from_spec(v: N32) -> u32 {
        v.value() as u32
    }
}

impl PartialOrd for N32 {
    fn partial_cmp(&self, other: &N32) -> (r: Option<core::cmp::Ordering>) {
        let a = self.to_u32();
        let b = other.to_u32();
        if a < b {
            Some(core::cmp::Ordering::Less)
        } else if a > b {
            Some(core::cmp::Ordering::Greater)
        } else {
            Some(core::cmp::Ordering::Equal)
        }
    }
}

impl vstd::std_specs::cmp::PartialOrdSpecImpl for N32 {
    open spec fn obeys_partial_cmp_spec() -> bool {
        true
    }

    open spec fn partial_cmp_spec(&self, other: &N32) -> Option<core::cmp::Ordering> {
        if self.value() < other.value() {
            Some(core::cmp::Ordering::Less)
        } else if self.value() > other.value() {
            Some(core::cmp::Ordering::Greater)
        } else {
            Some(core::cmp::Ordering::Equal)
        }
    }
}

impl core::str::FromStr for N32 {
    type Err = NumError;

    fn from_str(s: &str) -> (r: Result<N32, NumError>)
        ensures
            match r {
                Ok(n) => is_binary_text(s@, 32) && n@ == parse_seq(s@, 32),
                Err(e) => !is_binary_text(s@, 32) && e == NumError::ParseError,
            },
    {
        N32::parse(s)
    }
}

/// Unsigned 64-bit integer; `bits[0]` is the least significant bit.
#[derive(Debug, Clone, Copy, PartialEq, Eq, Hash)]
pub struct N64 {
    pub bits: [Bit; 64],
}

impl View for N64 {
    type V = Seq<Bit>;

    open spec fn view(&self) -> Seq<Bit> {
        self.bits@
    }
}

impl N64 {
    /// The represented value, in `[0, 2^64)`.
    pub open spec fn value(&self) -> nat {
        bits_val(self@)
    }

    /// The value with the given bits.
    pub fn new(bits: [Bit; 64]) -> (r: N64)
        ensures
            r@ == bits@,
    {
        N64 { bits }
    }

    /// The value zero.
    pub fn zero() -> (r: N64)
        ensures
            r.value() == 0,
            r@ == encode_seq(0, 64),
    {
        N64::from_u64(0)
    }

    /// The bits of a native value.
    pub fn from_u64(value: u64) -> (r: N64)
        ensures
            r@ == encode_seq(value as int, 64),
            r.value() == value,
    {
        proof {
            lemma_encode_val(value as int, 64);
            vstd::arithmetic::power2::lemma2_to64();
            vstd::arithmetic::power2::lemma2_to64_rest();
            vstd::arithmetic::div_mod::lemma_small_mod(value as nat, pow2(64));
        }
        N64 { bits: encode(value) }
    }

    /// The native value of the bits.
    pub fn to_u64(&self) -> (r: u64)
        ensures
            r == self.value(),
    {
        proof {
            lemma_bits_val_bound(self@);
            vstd::arithmetic::power2::lemma2_to64();
            vstd::arithmetic::power2::lemma2_to64_rest();
        }
        decode(&self.bits)
    }

    /// Sum modulo `2^64`, by a ripple-carry adder.
    pub fn add(&self, other: &N64) -> (r: N64)
        ensures
            r.value() == wrap_unsigned(self.value() + other.value() as int, 64),
    {
        N64 { bits: ripple_add(&self.bits, &other.bits) }
    }

    /// Difference modulo `2^64`, by a ripple-borrow subtractor.
    pub fn sub(&self, other: &N64) -> (r: N64)
        ensures
            r.value() == wrap_unsigned(self.value() - other.value(), 64),
    {
        N64 { bits: ripple_sub(&self.bits, &other.bits) }
    }

    /// Product modulo `2^64`.
    pub fn mul(&self, other: &N64) -> (r: N64)
        ensures
            r.value() == wrap_unsigned(self.value() * other.value() as int, 64),
    {
        N64 { bits: mul_bits(&self.bits, &other.bits) }
    }

    /// Quotient rounded down; `DivisionByZero` when `other` is zero.
    pub fn div(&self, other: &N64) -> (r: Result<N64, NumError>)
        ensures
            match r {
                Ok(q) => other.value() != 0 && q.value() == self.value() / other.value(),
                Err(e) => other.value() == 0 && e == NumError::DivisionByZero,
            },
    {
        match udiv_bits(&self.bits, &other.bits) {
            Ok(bits) => Ok(N64 { bits }),
            Err(e) => Err(e),
        }
    }

    /// Remainder of the division; `DivisionByZero` when `other` is zero.
    pub fn rem(&self, other: &N64) -> (r: Result<N64, NumError>)
        ensures
            match r {
                Ok(m) => other.value() != 0 && m.value() == self.value() % other.value(),
                Err(e) => other.value() == 0 && e == NumError::DivisionByZero,
            },
    {
        match urem_bits(&self.bits, &other.bits) {
            Ok(bits) => Ok(N64 { bits }),
            Err(e) => Err(e),
        }
    }

    /// Logical shift toward the high end; `Zero` fills, and a shift by 64 or
    /// more gives zero.
    pub fn shift_left(&self, shift: u32) -> (r: N64)
        ensures
            r@ == shl_seq(self@, shift as nat),
            r.value() == (self.value() * pow2(shift as nat)) % pow2(64),
    {
        let r = N64 { bits: shift_left_bits(&self.bits, shift as usize) };
        proof {
            lemma_shl_val(self@, shift as nat);
        }
        r
    }

    /// Logical shift toward the low end; `Zero` fills, and a shift by 64 or
    /// more gives zero.
    pub fn shift_right(&self, shift: u32) -> (r: N64)
        ensures
            r@ == shr_seq(self@, shift as nat),
            r.value() == self.value() / pow2(shift as nat),
    {
        let r = N64 { bits: shift_right_bits(&self.bits, shift as usize) };
        proof {
            lemma_shr_val(self@, shift as nat);
        }
        r
    }

    /// Binary text, most significant character first, at most 64 characters;
    /// missing high bits are zero.
    pub fn parse(s: &str) -> (r: Result<N64, NumError>)
        ensures
            match r {
                Ok(n) => is_binary_text(s@, 64) && n@ == parse_seq(s@, 64),
                Err(e) => !is_binary_text(s@, 64) && e == NumError::ParseError,
            },
    {
        match parse_bits(s) {
            Ok(bits) => Ok(N64 { bits }),
            Err(e) => Err(e),
        }
    }

    /// The decimal text of the value.
    pub fn to_string(&self) -> (r: String)
        ensures
            r@ == decimal_chars(self.value()),
    {
        render_unsigned(decode(&self.bits))
    }
}

impl BitCount for N64 {
    fn count_ones(&self) -> (r: u32) {
        count_bits(&self.bits, Bit::One)
    }

    fn count_zeros(&self) -> (r: u32) {
        count_bits(&self.bits, Bit::Zero)
    }
}

impl BitwiseRotate for N64 {
    fn rotate_left(&mut self, n: u32) {
        self.bits = rotate_left_bits(&self.bits, n as usize);
    }

    fn rotate_right(&mut self, n: u32) {
        self.bits = rotate_right_bits(&self.bits, n as usize);
    }
}

impl BitwiseReverse for N64 {
    fn reverse_bits(&mut self) {
        self.bits = reverse_bits_of(&self.bits);
    }
}

impl From<u64> for N64 {
    fn from(value: u64) -> (r: N64) {
        let r = N64::from_u64(value);
        proof {
            let c = choose|n: N64| n@ == encode_seq(value as int, 64);
            assert(c.bits =~= r.bits);
        }
        r
    }
}

impl vstd::std_specs::convert::FromSpecImpl<u64> for N64 {
    open spec fn obeys_from_spec() -> bool {
        true
    }

    open spec fn from_spec(v: u64) -> N64 {
        choose|n: N64| n@ == encode_seq(v as int, 64)
    }
}

impl From<N64> for u64 {
    fn from(value: N64) -> (r: u64) {
        value.to_u64()
    }
}

impl vstd::std_specs::convert::FromSpecImpl<N64> for u64 {
    open spec fn obeys_from_spec() -> bool {
        true
    }

    open spec fn from_spec(v: N64) -> u64 {
        v.value() as u64
    }
}

impl PartialOrd for N64 {
    fn partial_cmp(&self, other: &N64) -> (r: Option<core::cmp::Ordering>) {
        let a = self.to_u64();
        let b = other.to_u64();
        if a < b {
            Some(core::cmp::Ordering::Less)
        } else if a > b {
            Some(core::cmp::Ordering::Greater)
        } else {
            Some(core::cmp::Ordering::Equal)
        }
    }
}

impl vstd::std_specs::cmp::PartialOrdSpecImpl for N64 {
    open spec fn obeys_partial_cmp_spec() -> bool {
        true
    }

    open spec fn partial_cmp_spec(&self, other: &N64) -> Option<core::cmp::Ordering> {
        if self.value() < other.value() {
            Some(core::cmp::Ordering::Less)
        } else if self.value() > other.value() {
            Some(core::cmp::Ordering::Greater)
        } else {
            Some(core::cmp::Ordering::Equal)
        }
    }
}

impl core::str::FromStr for N64 {
    type Err = NumError;

    fn from_str(s: &str) -> (r: Result<N64, NumError>)
        ensures
            match r {
                Ok(n) => is_binary_text(s@, 64) && n@ == parse_seq(s@, 64),
                Err(e) => !is_binary_text(s@, 64) && e == NumError::ParseError,
            },
    {
        N64::parse(s)
    }
}

} // verus!
