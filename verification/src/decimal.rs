//! Non-integer numbers, held as the bit pattern of an IEEE 754 binary64
//! value together with the texts that `Display` and `Debug` give it.  The
//! library never computes with such numbers: it only tests them for zero
//! and compares them, and both are stated here over the bit pattern.

use vstd::prelude::*;

verus! {

/// A number that is not an `i64`: the bits of its binary64 encoding, its
/// display text and its debug text.  Two numbers are `==` when their
/// values are equal, as for binary64: `+0.0 == -0.0`, and a NaN equals
/// nothing.
#[derive(Clone, Debug)]
pub struct Decimal {
    pub bits: u64,
    pub text: String,
    pub debug: String,
}

/// The sign bit.
pub open spec fn sign_bit() -> int {
    0x8000_0000_0000_0000
}

/// The encoding of positive infinity; every larger magnitude is a NaN.
pub open spec fn infinity_bits() -> int {
    0x7ff0_0000_0000_0000
}

/// The encoding without its sign bit.
pub open spec fn magnitude(bits: u64) -> int {
    bits as int % sign_bit()
}

/// The encoding is a NaN: all exponent bits set and a non-zero fraction.
pub open spec fn is_nan(bits: u64) -> bool {
    magnitude(bits) > infinity_bits()
}

/// The encoding is `+0.0` or `-0.0`.
pub open spec fn is_zero(bits: u64) -> bool {
    magnitude(bits) == 0
}

/// An integer that orders the encodings that are not NaN as their values
/// are ordered: positive encodings by their magnitude, negative ones by
/// the opposite of it.  Both zeros have the key 0.
pub open spec fn order_key(bits: u64) -> int {
    if bits as int >= sign_bit() {
        -magnitude(bits)
    } else {
        magnitude(bits)
    }
}

/// `a == b` on the values: never for a NaN; `+0.0 == -0.0`.
pub open spec fn value_eq(a: u64, b: u64) -> bool {
    !is_nan(a) && !is_nan(b) && order_key(a) == order_key(b)
}

/// `a < b` on the values: never for a NaN.
pub open spec fn value_lt(a: u64, b: u64) -> bool {
    !is_nan(a) && !is_nan(b) && order_key(a) < order_key(b)
}

/// `a <= b` on the values: never for a NaN.
pub open spec fn value_le(a: u64, b: u64) -> bool {
    !is_nan(a) && !is_nan(b) && order_key(a) <= order_key(b)
}

impl Decimal {
    /// A number from the bits of its encoding and its display text.
    pub fn new(bits: u64, text: String, debug: String) -> (d: Decimal)
        ensures
            d.bits == bits,
            d.text@ == text@,
            d.debug@ == debug@,
    {
        Decimal { bits, text, debug }
    }

    /// A copy of this number.
    pub fn duplicate(&self) -> (d: Decimal)
        ensures
            d == *self,
    {
        Decimal { bits: self.bits, text: self.text.clone(), debug: self.debug.clone() }
    }

    fn key(&self) -> (k: i64)
        requires
            !is_nan(self.bits),
        ensures
            k == order_key(self.bits),
    {
        if self.bits >= 0x8000_0000_0000_0000u64 {
            let m: u64 = self.bits - 0x8000_0000_0000_0000u64;
            -(m as i64)
        } else {
            self.bits as i64
        }
    }

    /// Whether the value is a NaN.
    pub fn is_nan(&self) -> (r: bool)
        ensures
            r == is_nan(self.bits),
    {
        self.bits % 0x8000_0000_0000_0000u64 > 0x7ff0_0000_0000_0000u64
    }

    /// Whether the value is zero, of either sign.
    pub fn is_zero(&self) -> (r: bool)
        ensures
            r == is_zero(self.bits),
    {
        self.bits % 0x8000_0000_0000_0000u64 == 0
    }

    /// Whether the two values are equal.
    pub fn value_eq(&self, other: &Decimal) -> (r: bool)
        ensures
            r == value_eq(self.bits, other.bits),
    {
        if self.is_nan() || other.is_nan() {
            false
        } else {
            self.key() == other.key()
        }
    }

    /// Whether this value is less than the other.
    pub fn value_lt(&self, other: &Decimal) -> (r: bool)
        ensures
            r == value_lt(self.bits, other.bits),
    {
        if self.is_nan() || other.is_nan() {
            false
        } else {
            self.key() < other.key()
        }
    }

    /// Whether this value is less than or equal to the other.
    pub fn value_le(&self, other: &Decimal) -> (r: bool)
        ensures
            r == value_le(self.bits, other.bits),
    {
        if self.is_nan() || other.is_nan() {
            false
        } else {
            self.key() <= other.key()
        }
    }
}

impl PartialEq for Decimal {
    fn eq(&self, other: &Decimal) -> (r: bool) {
        self.value_eq(other)
    }
}

impl vstd::std_specs::cmp::PartialEqSpecImpl for Decimal {
    open spec fn obeys_eq_spec() -> bool {
        true
    }

    open spec fn eq_spec(&self, other: &Decimal) -> bool {
        value_eq(self.bits, other.bits)
    }
}

} // verus!
