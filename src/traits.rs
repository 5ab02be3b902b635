//! Capabilities shared by the bit-vector-backed integer types.

use vstd::prelude::*;
use crate::bit::Bit;
use crate::bitvec::{count_bit, rotl_seq, rotr_seq, rev_seq};

verus! {

/// Counting the ones and zeros of a bit sequence.
pub trait BitCount: View<V = Seq<Bit>> {
    /// The number of `One` bits.
    fn count_ones(&self) -> (r: u32)
        ensures
            r as nat == count_bit(self@, Bit::One),
    ;

    /// The number of `Zero` bits.
    fn count_zeros(&self) -> (r: u32)
        ensures
            r as nat == count_bit(self@, Bit::Zero),
    ;
}

/// Circular shifts in place.
pub trait BitwiseRotate: View<V = Seq<Bit>> {
    /// Moves every bit `n` positions toward the high end, the high bits
    /// coming round to the low end.
    fn rotate_left(&mut self, n: u32)
        ensures
            final(self)@ == rotl_seq(old(self)@, n as int),
    ;

    /// Moves every bit `n` positions toward the low end, the low bits
    /// coming round to the high end.
    fn rotate_right(&mut self, n: u32)
        ensures
            final(self)@ == rotr_seq(old(self)@, n as int),
    ;
}

/// Reversing the order of the bits in place.
pub trait BitwiseReverse: View<V = Seq<Bit>> {
    /// Puts the bits in reverse order of position.
    fn reverse_bits(&mut self)
        ensures
            final(self)@ == rev_seq(old(self)@),
    ;
}

} // verus!
