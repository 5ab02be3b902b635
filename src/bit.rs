//! The two-valued logic element `Bit` and the predicate value `Bool`.

use vstd::prelude::*;

verus! {

/// A single stored bit.
///
/// The derived order puts `Zero` before `One`.
#[derive(Debug, Clone, Copy, PartialEq, Eq, PartialOrd, Ord, Hash, Structural)]
pub enum Bit {
    Zero,
    One,
}

/// The outcome of a logical test, kept apart from a stored `Bit`.
#[derive(Debug, Clone, Copy, PartialEq, Eq, Hash, Structural)]
pub enum Bool {
    True,
    False,
}

/// The integer weight of a bit: 0 or 1.
pub open spec fn bit_val(b: Bit) -> nat {
    match b {
        Bit::Zero => 0,
        Bit::One => 1,
    }
}

/// The bit whose weight is `n % 2`.
pub open spec fn bit_of_parity(n: int) -> Bit {
    if n % 2 == 1 {
        Bit::One
    } else {
        Bit::Zero
    }
}

/// `true` for `Bit::One`.
pub open spec fn bit_is_set(b: Bit) -> bool {
    b == Bit::One
}

/// The bit that stands for a boolean.
pub open spec fn bit_of(x: bool) -> Bit {
    if x {
        Bit::One
    } else {
        Bit::Zero
    }
}

/// The predicate value that stands for a boolean.
pub open spec fn bool_of(x: bool) -> Bool {
    if x {
        Bool::True
    } else {
        Bool::False
    }
}

/// `true` for `Bool::True`.
pub open spec fn bool_holds(b: Bool) -> bool {
    b == Bool::True
}

pub open spec fn bit_not(a: Bit) -> Bit {
    bit_of(!bit_is_set(a))
}

pub open spec fn bit_and(a: Bit, b: Bit) -> Bit {
    bit_of(bit_is_set(a) && bit_is_set(b))
}

pub open spec fn bit_or(a: Bit, b: Bit) -> Bit {
    bit_of(bit_is_set(a) || bit_is_set(b))
}

pub open spec fn bit_xor(a: Bit, b: Bit) -> Bit {
    bit_of(bit_is_set(a) != bit_is_set(b))
}

impl Bit {
    /// The predicate value with the same truth: `One` is `True`.
    pub fn as_bool(&self) -> (r: Bool)
        ensures
            r == bool_of(bit_is_set(*self)),
    {
        match self {
            Bit::Zero => Bool::False,
            Bit::One => Bool::True,
        }
    }

    /// The bit with the same truth as a predicate value: `True` is `One`.
    pub fn from_bool(value: Bool) -> (r: Bit)
        ensures
            r == bit_of(bool_holds(value)),
    {
        match value {
            Bool::False => Bit::Zero,
            Bool::True => Bit::One,
        }
    }

    /// Whether the bit is `Zero`.
    pub fn is_zero(&self) -> (r: Bool)
        ensures
            r == bool_of(*self == Bit::Zero),
    {
        match self {
            Bit::Zero => Bool::True,
            Bit::One => Bool::False,
        }
    }

    /// Whether the bit is `One`.
    pub fn is_one(&self) -> (r: Bool)
        ensures
            r == bool_of(*self == Bit::One),
    {
        match self {
            Bit::Zero => Bool::False,
            Bit::One => Bool::True,
        }
    }

    /// Whether two bits are equal.
    pub fn is(&self, other: &Bit) -> (r: Bool)
        ensures
            r == bool_of(*self == *other),
    {
        match (self, other) {
            (Bit::Zero, Bit::Zero) => Bool::True,
            (Bit::One, Bit::One) => Bool::True,
            _ => Bool::False,
        }
    }

    /// Inclusive or.
    pub fn or(&self, other: &Bit) -> (r: Bit)
        ensures
            r == bit_or(*self, *other),
    {
        match (self, other) {
            (Bit::Zero, Bit::Zero) => Bit::Zero,
            _ => Bit::One,
        }
    }

    /// Conjunction.
    pub fn and(&self, other: &Bit) -> (r: Bit)
        ensures
            r == bit_and(*self, *other),
    {
        match (self, other) {
            (Bit::One, Bit::One) => Bit::One,
            _ => Bit::Zero,
        }
    }

    /// Exclusive or: `One` exactly when the bits differ.
    pub fn xor(&self, other: &Bit) -> (r: Bit)
        ensures
            r == bit_xor(*self, *other),
    {
        match (self, other) {
            (Bit::Zero, Bit::One) => Bit::One,
            (Bit::One, Bit::Zero) => Bit::One,
            _ => Bit::Zero,
        }
    }

    /// Negation.
    pub fn not(&self) -> (r: Bit)
        ensures
            r == bit_not(*self),
    {
        match self {
            Bit::Zero => Bit::One,
            Bit::One => Bit::Zero,
        }
    }

    /// Negated conjunction.
    pub fn nand(&self, other: &Bit) -> (r: Bit)
        ensures
            r == bit_not(bit_and(*self, *other)),
    {
        self.and(other).not()
    }

    /// Negated inclusive or.
    pub fn nor(&self, other: &Bit) -> (r: Bit)
        ensures
            r == bit_not(bit_or(*self, *other)),
    {
        self.or(other).not()
    }

    /// Negated exclusive or: `One` exactly when the bits are equal.
    pub fn xnor(&self, other: &Bit) -> (r: Bit)
        ensures
            r == bit_not(bit_xor(*self, *other)),
    {
        self.xor(other).not()
    }

    /// `"1"` for `One`, `"0"` for `Zero`.
    pub fn to_string(&self) -> (r: String)
        ensures
            r@ == (if *self == Bit::One {
                seq!['1']
            } else {
                seq!['0']
            }),
    {
        proof {
            reveal_strlit("0");
            reveal_strlit("1");
        }
        match self {
            Bit::Zero => "0".to_owned(),
            Bit::One => "1".to_owned(),
        }
    }

    /// The weight of the bit as an integer, 0 or 1.
    pub fn to_u8(&self) -> (r: u8)
        ensures
            r as nat == bit_val(*self),
    {
        match self {
            Bit::Zero => 0,
            Bit::One => 1,
        }
    }
}

impl From<Bit> for u8 {
    fn from(val: Bit) -> (r: u8) {
        val.to_u8()
    }
}

impl vstd::std_specs::convert::FromSpecImpl<Bit> for u8 {
    open spec fn obeys_from_spec() -> bool {
        true
    }

    open spec fn from_spec(v: Bit) -> u8 {
        bit_val(v) as u8
    }
}

impl Bool {
    /// The predicate value of a boolean.
    pub fn new(value: bool) -> (r: Bool)
        ensures
            r == bool_of(value),
    {
        if value {
            Bool::True
        } else {
            Bool::False
        }
    }

    /// Logical negation.
    pub fn not(&self) -> (r: Bool)
        ensures
            r == bool_of(!bool_holds(*self)),
    {
        match self {
            Bool::True => Bool::False,
            Bool::False => Bool::True,
        }
    }

    /// Logical conjunction.
    pub fn and(&self, other: &Bool) -> (r: Bool)
        ensures
            r == bool_of(bool_holds(*self) && bool_holds(*other)),
    {
        match (self, other) {
            (Bool::True, Bool::True) => Bool::True,
            _ => Bool::False,
        }
    }

    /// Logical inclusive or.
    pub fn or(&self, other: &Bool) -> (r: Bool)
        ensures
            r == bool_of(bool_holds(*self) || bool_holds(*other)),
    {
        match (self, other) {
            (Bool::True, _) | (_, Bool::True) => Bool::True,
            _ => Bool::False,
        }
    }

    /// Logical exclusive or.
    pub fn xor(&self, other: &Bool) -> (r: Bool)
        ensures
            r == bool_of(bool_holds(*self) != bool_holds(*other)),
    {
        match (self, other) {
            (Bool::True, Bool::False) | (Bool::False, Bool::True) => Bool::True,
            _ => Bool::False,
        }
    }

    /// `"true"` or `"false"`.
    pub fn to_string(&self) -> (r: String)
        ensures
            r@ == (if bool_holds(*self) {
                seq!['t', 'r', 'u', 'e']
            } else {
                seq!['f', 'a', 'l', 's', 'e']
            }),
    {
        proof {
            reveal_strlit("true");
            reveal_strlit("false");
        }
        match self {
            Bool::True => "true".to_owned(),
            Bool::False => "false".to_owned(),
        }
    }

    /// The plain boolean with the same truth.
    pub fn to_bool(&self) -> (r: bool)
        ensures
            r == bool_holds(*self),
    {
        match self {
            Bool::True => true,
            Bool::False => false,
        }
    }
}

} // verus!
