//! IEEE-754 binary32 and binary64 values held as their bit patterns. The
//! bits convert exactly to and from the native encoding; arithmetic on the
//! numbers they stand for is left to the caller's floating-point unit.

use vstd::prelude::*;
use vstd::arithmetic::power2::{lemma2_to64, lemma2_to64_rest};
use crate::bit::Bit;
use crate::bitvec::{bits_val, encode_seq, encode, decode, lemma_encode_val, lemma_bits_val_bound};

verus! {

/// An IEEE-754 binary32 encoding; `bits[0]` is the least significant bit of
/// the pattern and `bits[31]` the sign.
#[derive(Debug, Clone, Copy, PartialEq, Eq, Hash)]
pub struct R32 {
    pub bits: [Bit; 32],
}

impl View for R32 {
    type V = Seq<Bit>;

    open spec fn view(&self) -> Seq<Bit> {
        self.bits@
    }
}

impl R32 {
    /// The encoding as an unsigned integer, as `f32::to_bits` gives it.
    pub open spec fn pattern(&self) -> nat {
        bits_val(self@)
    }

    /// The value with the given bits.
    pub fn new(bits: [Bit; 32]) -> (r: R32)
        ensures
            r@ == bits@,
    {
        R32 { bits }
    }

    /// The value with the given encoding, bit for bit: NaN payloads, signed
    /// zeros, infinities and subnormals all pass through unchanged.
    pub fn from_bits(pattern: u32) -> (r: R32)
        ensures
            r@ == encode_seq(pattern as int, 32),
            r.pattern() == pattern,
    {
        proof {
            lemma2_to64();
            lemma_encode_val(pattern as int, 32);
            vstd::arithmetic::div_mod::lemma_small_mod(pattern as nat, 0x1_0000_0000);
        }
        R32 { bits: encode(pattern as u64) }
    }

    /// The encoding, bit for bit.
    pub fn to_bits(&self) -> (r: u32)
        ensures
            r == self.pattern(),
    {
        proof {
            lemma2_to64();
            lemma2_to64_rest();
            lemma_bits_val_bound(self@);
        }
        decode(&self.bits) as u32
    }
}

/// An IEEE-754 binary64 encoding; `bits[0]` is the least significant bit of
/// the pattern and `bits[63]` the sign.
#[derive(Debug, Clone, Copy, PartialEq, Eq, Hash)]
pub struct R64 {
    pub bits: [Bit; 64],
}

impl View for R64 {
    type V = Seq<Bit>;

    open spec fn view(&self) -> Seq<Bit> {
        self.bits@
    }
}

impl R64 {
    /// The encoding as an unsigned integer, as `f64::to_bits` gives it.
    pub open spec fn pattern(&self) -> nat {
        bits_val(self@)
    }

    /// The value with the given bits.
    pub fn new(bits: [Bit; 64]) -> (r: R64)
        ensures
            r@ == bits@,
    {
        R64 { bits }
    }

    /// The value with the given encoding, bit for bit: NaN payloads, signed
    /// zeros, infinities and subnormals all pass through unchanged.
    pub fn from_bits(pattern: u64) -> (r: R64)
        ensures
            r@ == encode_seq(pattern as int, 64),
            r.pattern() == pattern,
    {
        proof {
            lemma2_to64();
            lemma_encode_val(pattern as int, 64);
            lemma2_to64_rest();
            vstd::arithmetic::div_mod::lemma_small_mod(pattern as nat, 0x1_0000_0000_0000_0000);
        }
        R64 { bits: encode(pattern) }
    }

    /// The encoding, bit for bit.
    pub fn to_bits(&self) -> (r: u64)
        ensures
            r == self.pattern(),
    {
        proof {
            lemma2_to64();
            lemma2_to64_rest();
            lemma_bits_val_bound(self@);
        }
        decode(&self.bits)
    }
}

} // verus!
