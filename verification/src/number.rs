//! IEEE-754 double precision numbers, carried by their bit pattern.
//!
//! The library keeps every JavaScript number as the 64 bits of its double.
//! What can be decided on those bits alone (truthiness, equality, ordering,
//! sign changes) is computed and proved here; arithmetic and decimal
//! conversion are requested from the embedder (see `numeric`).
use vstd::prelude::*;

verus! {

/// The sign bit of a double.
pub const SIGN_MASK: u64 = 0x8000_0000_0000_0000u64;

/// Every bit of a double but its sign.
pub const MAGNITUDE_MASK: u64 = 0x7FFF_FFFF_FFFF_FFFFu64;

/// The eleven exponent bits of a double.
pub const EXPONENT_MASK: u64 = 0x7FF0_0000_0000_0000u64;

/// The fifty-two fraction bits of a double.
pub const FRACTION_MASK: u64 = 0x000F_FFFF_FFFF_FFFFu64;

/// The bit pattern of `1.0`.
pub const ONE_BITS: u64 = 0x3FF0_0000_0000_0000u64;

/// The bit pattern of the quiet NaN that Rust's `f64::NAN` holds.
pub const NAN_BITS: u64 = 0x7FF8_0000_0000_0000u64;

/// The bit pattern of negative infinity.
pub const NEG_INFINITY_BITS: u64 = 0xFFF0_0000_0000_0000u64;

/// The bit pattern of positive infinity.
pub const INFINITY_BITS: u64 = 0x7FF0_0000_0000_0000u64;

/// A JavaScript number: an IEEE-754 double given by its bits.
#[derive(Clone, Copy, Debug, PartialEq, Eq, Structural)]
pub struct JsNumber {
    pub bits: u64,
}

/// The outcome of comparing two numbers that are not NaN.
#[derive(Clone, Copy, Debug, PartialEq, Eq, Structural)]
pub enum NumberOrder {
    Less,
    Equal,
    Greater,
}

impl JsNumber {
    /// NaN: all exponent bits set and a fraction that is not zero.
    pub open spec fn spec_is_nan(self) -> bool {
        self.bits & EXPONENT_MASK == EXPONENT_MASK && self.bits & FRACTION_MASK != 0
    }

    /// Positive or negative zero.
    pub open spec fn spec_is_zero(self) -> bool {
        self.bits & MAGNITUDE_MASK == 0
    }

    /// The sign bit is set.
    pub open spec fn spec_is_negative(self) -> bool {
        self.bits & SIGN_MASK != 0
    }

    /// JavaScript truthiness of a number: neither zero nor NaN.
    pub open spec fn spec_truthy(self) -> bool {
        !self.spec_is_zero() && !self.spec_is_nan()
    }

    /// Doubles that are not NaN are ordered like sign-magnitude integers:
    /// this key is the magnitude bits, negated when the sign bit is set,
    /// so that both zeros share the key 0.
    pub open spec fn order_key(self) -> int {
        if self.spec_is_negative() {
            -((self.bits & MAGNITUDE_MASK) as int)
        } else {
            (self.bits & MAGNITUDE_MASK) as int
        }
    }

    /// IEEE equality: no NaN is equal to anything, and the zeros are equal.
    pub open spec fn spec_equals(self, other: JsNumber) -> bool {
        !self.spec_is_nan() && !other.spec_is_nan() && self.order_key() == other.order_key()
    }

    /// IEEE ordering: `None` when either side is NaN.
    pub open spec fn spec_compare(self, other: JsNumber) -> Option<NumberOrder> {
        if self.spec_is_nan() || other.spec_is_nan() {
            None
        } else if self.order_key() < other.order_key() {
            Some(NumberOrder::Less)
        } else if self.order_key() == other.order_key() {
            Some(NumberOrder::Equal)
        } else {
            Some(NumberOrder::Greater)
        }
    }

    pub fn from_bits(bits: u64) -> (n: JsNumber)
        ensures
            n.bits == bits,
    {
        JsNumber { bits }
    }

    /// Positive zero.
    pub fn zero() -> (n: JsNumber)
        ensures
            n.bits == 0,
    {
        JsNumber { bits: 0 }
    }

    /// One.
    pub fn one() -> (n: JsNumber)
        ensures
            n.bits == ONE_BITS,
    {
        JsNumber { bits: ONE_BITS }
    }

    /// The quiet NaN.
    pub fn nan() -> (n: JsNumber)
        ensures
            n.bits == NAN_BITS,
    {
        JsNumber { bits: NAN_BITS }
    }

    pub fn is_nan(self) -> (r: bool)
        ensures
            r == self.spec_is_nan(),
    {
        self.bits & EXPONENT_MASK == EXPONENT_MASK && self.bits & FRACTION_MASK != 0
    }

    pub fn is_zero(self) -> (r: bool)
        ensures
            r == self.spec_is_zero(),
    {
        self.bits & MAGNITUDE_MASK == 0
    }

    /// Truthiness: `n != 0.0 && !n.is_nan()`.
    pub fn to_bool(self) -> (r: bool)
        ensures
            r == self.spec_truthy(),
    {
        !self.is_zero() && !self.is_nan()
    }

    /// `==` on doubles.
    pub fn equals(self, other: JsNumber) -> (r: bool)
        ensures
            r == self.spec_equals(other),
    {
        match self.compare(other) {
            Some(NumberOrder::Equal) => true,
            _ => false,
        }
    }

    /// `partial_cmp` on doubles.
    pub fn compare(self, other: JsNumber) -> (r: Option<NumberOrder>)
        ensures
            r == self.spec_compare(other),
    {
        if self.is_nan() || other.is_nan() {
            return None;
        }
        let a = self.bits & MAGNITUDE_MASK;
        let b = other.bits & MAGNITUDE_MASK;
        let a_neg = self.bits & SIGN_MASK != 0;
        let b_neg = other.bits & SIGN_MASK != 0;
        if a == 0 && b == 0 {
            Some(NumberOrder::Equal)
        } else if !a_neg && !b_neg {
            if a < b {
                Some(NumberOrder::Less)
            } else if a == b {
                Some(NumberOrder::Equal)
            } else {
                Some(NumberOrder::Greater)
            }
        } else if a_neg && b_neg {
            if b < a {
                Some(NumberOrder::Less)
            } else if a == b {
                Some(NumberOrder::Equal)
            } else {
                Some(NumberOrder::Greater)
            }
        } else if a_neg {
            Some(NumberOrder::Less)
        } else {
            Some(NumberOrder::Greater)
        }
    }

    /// Unary minus: flips the sign bit, as IEEE negation does.
    pub fn negate(self) -> (n: JsNumber)
        ensures
            n.bits == self.bits ^ SIGN_MASK,
    {
        JsNumber { bits: self.bits ^ SIGN_MASK }
    }

    /// `Math.abs`: clears the sign bit.
    pub fn abs(self) -> (n: JsNumber)
        ensures
            n.bits == self.bits & MAGNITUDE_MASK,
    {
        JsNumber { bits: self.bits & MAGNITUDE_MASK }
    }
}

/// Negating twice gives the number back.
pub proof fn lemma_negate_involutive(n: JsNumber)
    ensures
        (n.bits ^ SIGN_MASK) ^ SIGN_MASK == n.bits,
{
    let b = n.bits;
    assert((b ^ 0x8000_0000_0000_0000u64) ^ 0x8000_0000_0000_0000u64 == b) by (bit_vector);
}

/// Equality of numbers is symmetric, and reflexive on every number but NaN.
pub proof fn lemma_equals_symmetric_reflexive(a: JsNumber, b: JsNumber)
    ensures
        a.spec_equals(b) == b.spec_equals(a),
        !a.spec_is_nan() ==> a.spec_equals(a),
{
}

/// The two zeros are equal and NaN is equal to nothing.
pub proof fn lemma_zeros_equal_nan_unequal(a: JsNumber, b: JsNumber)
    ensures
        a.spec_is_zero() && b.spec_is_zero() ==> a.spec_equals(b),
        a.spec_is_nan() ==> !a.spec_equals(b) && a.spec_compare(b).is_none(),
{
    lemma_zero_not_nan(a);
    lemma_zero_not_nan(b);
}

/// A zero has no exponent bits, so it is not NaN.
pub proof fn lemma_zero_not_nan(a: JsNumber)
    ensures
        a.spec_is_zero() ==> !a.spec_is_nan(),
{
    let b = a.bits;
    assert(b & 0x7FFF_FFFF_FFFF_FFFFu64 == 0 ==> b & 0x7FF0_0000_0000_0000u64 != 0x7FF0_0000_0000_0000u64)
        by (bit_vector);
}

/// Comparing in the other order reverses the answer.
pub proof fn lemma_compare_antisymmetric(a: JsNumber, b: JsNumber)
    ensures
        a.spec_compare(b) == Some(NumberOrder::Less) <==> b.spec_compare(a) == Some(NumberOrder::Greater),
        a.spec_compare(b) == Some(NumberOrder::Equal) <==> b.spec_compare(a) == Some(NumberOrder::Equal),
{
}

} // verus!
