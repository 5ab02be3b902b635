//! Named bit-vector containers of 4, 8 and 16 bits: structural operations
//! on the bits, with no numeric reading.

use vstd::prelude::*;
use crate::bit::Bit;
use crate::bitvec::{and_seq, or_seq, xor_seq, not_seq, shl_seq, shr_seq, rotl_seq, rotr_seq, fit_seq, and_bits, or_bits, xor_bits, not_bits, shift_left_bits, shift_right_bits, rotate_left_bits, rotate_right_bits, fit_bits};
use crate::text::{binary_chars, render_binary};
use crate::error::NumError;

verus! {

/// Four bits; `bits[0]` is the least significant.
#[derive(Debug, Clone, Copy, PartialEq, Eq, Hash)]
pub struct Nibble {
    pub bits: [Bit; 4],
}

impl View for Nibble {
    type V = Seq<Bit>;

    open spec fn view(&self) -> Seq<Bit> {
        self.bits@
    }
}

impl Nibble {
    /// The container with the given bits.
    pub fn new(bits: [Bit; 4]) -> (r: Nibble)
        ensures
            r@ == bits@,
    {
        Nibble { bits }
    }

    /// The first 4 bits of a sequence, with `Zero` in the high positions
    /// that a shorter sequence leaves open.
    pub fn from_bit_slice(bits: &[Bit]) -> (r: Nibble)
        ensures
            r@ == fit_seq(bits@, 4),
    {
        Nibble { bits: fit_bits(bits) }
    }

    /// The bit at `index`; `IndexOutOfRange` unless `index < 4`.
    pub fn get_bit(&self, index: usize) -> (r: Result<Bit, NumError>)
        ensures
            match r {
                Ok(b) => index < 4 && b == self@[index as int],
                Err(e) => index >= 4 && e == NumError::IndexOutOfRange,
            },
    {
        if index < 4 {
            Ok(self.bits[index])
        } else {
            Err(NumError::IndexOutOfRange)
        }
    }

    /// Puts `bit` at `index`; `IndexOutOfRange`, with nothing changed,
    /// unless `index < 4`.
    pub fn set_bit(&mut self, index: usize, bit: Bit) -> (r: Result<(), NumError>)
        ensures
            match r {
                Ok(_) => index < 4 && final(self)@ == old(self)@.update(index as int, bit),
                Err(e) => index >= 4 && e == NumError::IndexOutOfRange && final(self)@ == old(
                    self,
                )@,
            },
    {
        if index < 4 {
            self.bits[index] = bit;
            Ok(())
        } else {
            Err(NumError::IndexOutOfRange)
        }
    }

    /// The bits themselves.
    pub fn get_bits(&self) -> (r: &[Bit; 4])
        ensures
            r@ == self@,
    {
        &self.bits
    }

    /// Flips every bit in place.
    pub fn invert(&mut self)
        ensures
            final(self)@ == not_seq(old(self)@),
    {
        self.bits = not_bits(&self.bits);
    }

    /// Position-wise conjunction.
    pub fn and(&self, other: &Nibble) -> (r: Nibble)
        ensures
            r@ == and_seq(self@, other@),
    {
        Nibble { bits: and_bits(&self.bits, &other.bits) }
    }

    /// Position-wise inclusive or.
    pub fn or(&self, other: &Nibble) -> (r: Nibble)
        ensures
            r@ == or_seq(self@, other@),
    {
        Nibble { bits: or_bits(&self.bits, &other.bits) }
    }

    /// Position-wise exclusive or.
    pub fn xor(&self, other: &Nibble) -> (r: Nibble)
        ensures
            r@ == xor_seq(self@, other@),
    {
        Nibble { bits: xor_bits(&self.bits, &other.bits) }
    }

    /// Every bit flipped.
    pub fn not(&self) -> (r: Nibble)
        ensures
            r@ == not_seq(self@),
    {
        Nibble { bits: not_bits(&self.bits) }
    }

    /// Logical shift toward the high end; a shift by 4 or more gives all `Zero`.
    pub fn shift_left(&self, shift: u8) -> (r: Nibble)
        ensures
            r@ == shl_seq(self@, shift as nat),
    {
        Nibble { bits: shift_left_bits(&self.bits, shift as usize) }
    }

    /// Logical shift toward the low end; a shift by 4 or more gives all `Zero`.
    pub fn shift_right(&self, shift: u8) -> (r: Nibble)
        ensures
            r@ == shr_seq(self@, shift as nat),
    {
        Nibble { bits: shift_right_bits(&self.bits, shift as usize) }
    }

    /// Circular shift toward the high end by `n` modulo 4.
    pub fn rotate_left(&self, n: usize) -> (r: Nibble)
        ensures
            r@ == rotl_seq(self@, n as int),
    {
        Nibble { bits: rotate_left_bits(&self.bits, n) }
    }

    /// Circular shift toward the low end by `n` modulo 4.
    pub fn rotate_right(&self, n: usize) -> (r: Nibble)
        ensures
            r@ == rotr_seq(self@, n as int),
    {
        Nibble { bits: rotate_right_bits(&self.bits, n) }
    }

    /// The bits as `'0'` and `'1'`, most significant first.
    pub fn to_string(&self) -> (r: String)
        ensures
            r@ == binary_chars(self@),
    {
        render_binary(&self.bits)
    }
}

/// Eight bits; `bits[0]` is the least significant.
#[derive(Debug, Clone, Copy, PartialEq, Eq, Hash)]
pub struct Byte {
    pub bits: [Bit; 8],
}

impl View for Byte {
    type V = Seq<Bit>;

    open spec fn view(&self) -> Seq<Bit> {
        self.bits@
    }
}

impl Byte {
    /// The container with the given bits.
    pub fn new(bits: [Bit; 8]) -> (r: Byte)
        ensures
            r@ == bits@,
    {
        Byte { bits }
    }

    /// The first 8 bits of a sequence, with `Zero` in the high positions
    /// that a shorter sequence leaves open.
    pub fn from_bit_slice(bits: &[Bit]) -> (r: Byte)
        ensures
            r@ == fit_seq(bits@, 8),
    {
        Byte { bits: fit_bits(bits) }
    }

    /// The bit at `index`; `IndexOutOfRange` unless `index < 8`.
    pub fn get_bit(&self, index: usize) -> (r: Result<Bit, NumError>)
        ensures
            match r {
                Ok(b) => index < 8 && b == self@[index as int],
                Err(e) => index >= 8 && e == NumError::IndexOutOfRange,
            },
    {
        if index < 8 {
            Ok(self.bits[index])
        } else {
            Err(NumError::IndexOutOfRange)
        }
    }

    /// Puts `bit` at `index`; `IndexOutOfRange`, with nothing changed,
    /// unless `index < 8`.
    pub fn set_bit(&mut self, index: usize, bit: Bit) -> (r: Result<(), NumError>)
        ensures
            match r {
                Ok(_) => index < 8 && final(self)@ == old(self)@.update(index as int, bit),
                Err(e) => index >= 8 && e == NumError::IndexOutOfRange && final(self)@ == old(
                    self,
                )@,
            },
    {
        if index < 8 {
            self.bits[index] = bit;
            Ok(())
        } else {
            Err(NumError::IndexOutOfRange)
        }
    }

    /// The bits themselves.
    pub fn get_bits(&self) -> (r: &[Bit; 8])
        ensures
            r@ == self@,
    {
        &self.bits
    }

    /// Flips every bit in place.
    pub fn invert(&mut self)
        ensures
            final(self)@ == not_seq(old(self)@),
    {
        self.bits = not_bits(&self.bits);
    }

    /// Position-wise conjunction.
    pub fn and(&self, other: &Byte) -> (r: Byte)
        ensures
            r@ == and_seq(self@, other@),
    {
        Byte { bits: and_bits(&self.bits, &other.bits) }
    }

    /// Position-wise inclusive or.
    pub fn or(&self, other: &Byte) -> (r: Byte)
        ensures
            r@ == or_seq(self@, other@),
    {
        Byte { bits: or_bits(&self.bits, &other.bits) }
    }

    /// Position-wise exclusive or.
    pub fn xor(&self, other: &Byte) -> (r: Byte)
        ensures
            r@ == xor_seq(self@, other@),
    {
        Byte { bits: xor_bits(&self.bits, &other.bits) }
    }

    /// Every bit flipped.
    pub fn not(&self) -> (r: Byte)
        ensures
            r@ == not_seq(self@),
    {
        Byte { bits: not_bits(&self.bits) }
    }

    /// Logical shift toward the high end; a shift by 8 or more gives all `Zero`.
    pub fn shift_left(&self, shift: u8) -> (r: Byte)
        ensures
            r@ == shl_seq(self@, shift as nat),
    {
        Byte { bits: shift_left_bits(&self.bits, shift as usize) }
    }

    /// Logical shift toward the low end; a shift by 8 or more gives all `Zero`.
    pub fn shift_right(&self, shift: u8) -> (r: Byte)
        ensures
            r@ == shr_seq(self@, shift as nat),
    {
        Byte { bits: shift_right_bits(&self.bits, shift as usize) }
    }

    /// Circular shift toward the high end by `n` modulo 8.
    pub fn rotate_left(&self, n: usize) -> (r: Byte)
        ensures
            r@ == rotl_seq(self@, n as int),
    {
        Byte { bits: rotate_left_bits(&self.bits, n) }
    }

    /// Circular shift toward the low end by `n` modulo 8.
    pub fn rotate_right(&self, n: usize) -> (r: Byte)
        ensures
            r@ == rotr_seq(self@, n as int),
    {
        Byte { bits: rotate_right_bits(&self.bits, n) }
    }

    /// The bits as `'0'` and `'1'`, most significant first.
    pub fn to_string(&self) -> (r: String)
        ensures
            r@ == binary_chars(self@),
    {
        render_binary(&self.bits)
    }
}

/// Sixteen bits; `bits[0]` is the least significant.
#[derive(Debug, Clone, Copy, PartialEq, Eq, Hash)]
pub struct Word {
    pub bits: [Bit; 16],
}

impl View for Word {
    type V = Seq<Bit>;

    open spec fn view(&self) -> Seq<Bit> {
        self.bits@
    }
}

impl Word {
    /// The container with the given bits.
    pub fn new(bits: [Bit; 16]) -> (r: Word)
        ensures
            r@ == bits@,
    {
        Word { bits }
    }

    /// The first 16 bits of a sequence, with `Zero` in the high positions
    /// that a shorter sequence leaves open.
    pub fn from_bit_slice(bits: &[Bit]) -> (r: Word)
        ensures
            r@ == fit_seq(bits@, 16),
    {
        Word { bits: fit_bits(bits) }
    }

    /// The bit at `index`; `IndexOutOfRange` unless `index < 16`.
    pub fn get_bit(&self, index: usize) -> (r: Result<Bit, NumError>)
        ensures
            match r {
                Ok(b) => index < 16 && b == self@[index as int],
                Err(e) => index >= 16 && e == NumError::IndexOutOfRange,
            },
    {
        if index < 16 {
            Ok(self.bits[index])
        } else {
            Err(NumError::IndexOutOfRange)
        }
    }

    /// Puts `bit` at `index`; `IndexOutOfRange`, with nothing changed,
    /// unless `index < 16`.
    pub fn set_bit(&mut self, index: usize, bit: Bit) -> (r: Result<(), NumError>)
        ensures
            match r {
                Ok(_) => index < 16 && final(self)@ == old(self)@.update(index as int, bit),
                Err(e) => index >= 16 && e == NumError::IndexOutOfRange && final(self)@ == old(
                    self,
                )@,
            },
    {
        if index < 16 {
            self.bits[index] = bit;
            Ok(())
        } else {
            Err(NumError::IndexOutOfRange)
        }
    }

    /// The bits themselves.
    pub fn get_bits(&self) -> (r: &[Bit; 16])
        ensures
            r@ == self@,
    {
        &self.bits
    }

    /// Flips every bit in place.
    pub fn invert(&mut self)
        ensures
            final(self)@ == not_seq(old(self)@),
    {
        self.bits = not_bits(&self.bits);
    }

    /// Position-wise conjunction.
    pub fn and(&self, other: &Word) -> (r: Word)
        ensures
            r@ == and_seq(self@, other@),
    {
        Word { bits: and_bits(&self.bits, &other.bits) }
    }

    /// Position-wise inclusive or.
    pub fn or(&self, other: &Word) -> (r: Word)
        ensures
            r@ == or_seq(self@, other@),
    {
        Word { bits: or_bits(&self.bits, &other.bits) }
    }

    /// Position-wise exclusive or.
    pub fn xor(&self, other: &Word) -> (r: Word)
        ensures
            r@ == xor_seq(self@, other@),
    {
        Word { bits: xor_bits(&self.bits, &other.bits) }
    }

    /// Every bit flipped.
    pub fn not(&self) -> (r: Word)
        ensures
            r@ == not_seq(self@),
    {
        Word { bits: not_bits(&self.bits) }
    }

    /// Logical shift toward the high end; a shift by 16 or more gives all `Zero`.
    pub fn shift_left(&self, shift: u8) -> (r: Word)
        ensures
            r@ == shl_seq(self@, shift as nat),
    {
        Word { bits: shift_left_bits(&self.bits, shift as usize) }
    }

    /// Logical shift toward the low end; a shift by 16 or more gives all `Zero`.
    pub fn shift_right(&self, shift: u8) -> (r: Word)
        ensures
            r@ == shr_seq(self@, shift as nat),
    {
        Word { bits: shift_right_bits(&self.bits, shift as usize) }
    }

    /// Circular shift toward the high end by `n` modulo 16.
    pub fn rotate_left(&self, n: usize) -> (r: Word)
        ensures
            r@ == rotl_seq(self@, n as int),
    {
        Word { bits: rotate_left_bits(&self.bits, n) }
    }

    /// Circular shift toward the low end by `n` modulo 16.
    pub fn rotate_right(&self, n: usize) -> (r: Word)
        ensures
            r@ == rotr_seq(self@, n as int),
    {
        Word { bits: rotate_right_bits(&self.bits, n) }
    }

    /// The bits as `'0'` and `'1'`, most significant first.
    pub fn to_string(&self) -> (r: String)
        ensures
            r@ == binary_chars(self@),
    {
        render_binary(&self.bits)
    }
}

} // verus!
