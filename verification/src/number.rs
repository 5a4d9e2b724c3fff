//! Numbers: the simplest values of the language.
use crate::double::{
    doubles_equal, has_integer_value, integer_equals, integer_equals_double,
    lemma_integer_equals_by_conversion, nan, nearest_double, same_value,
};
use vstd::prelude::*;
use vstd::std_specs::cmp::PartialEqSpecImpl;
use vstd::string::to_string_from_display_ensures;

verus! {

/// A numeric literal.
#[derive(Debug, Clone, Copy)]
pub enum Number {
    /// A 64-bit signed integer.
    Integer(i64),
    /// A double-precision number, held by its IEEE-754 bit pattern.
    Float(u64),
}

/// The sixty-four bits of an integer in two's complement: the integer
/// itself where it is not negative, and 2^64 more where it is.
pub open spec fn twos_complement(n: i64) -> u64 {
    if n >= 0 {
        n as u64
    } else {
        (n + 0x1_0000_0000_0000_0000) as u64
    }
}

/// The sixty-four bits of an integer in two's complement.
pub fn integer_bits(n: i64) -> (bits: u64)
    ensures
        bits == twos_complement(n),
{
    if n >= 0 {
        n as u64
    } else {
        u64::MAX - ((-(n + 1)) as u64)
    }
}

impl Number {
    /// Numeric equality. Two integers are equal when they are the same
    /// integer; two floats, when the hardware compares them equal; an integer
    /// and a float, when the integer, converted to the nearest float, equals
    /// the float.
    pub open spec fn equals(self, other: Number) -> bool {
        match (self, other) {
            (Number::Integer(x), Number::Integer(y)) => x == y,
            (Number::Float(a), Number::Float(b)) => same_value(a, b),
            (Number::Integer(x), Number::Float(b)) => integer_equals(x as int, b),
            (Number::Float(a), Number::Integer(y)) => integer_equals(y as int, a),
        }
    }

    /// The text of an integer, as the bare integer is formatted. A float has
    /// no text here: its rendering belongs to the platform's floating point.
    pub fn to_text(&self) -> (r: Option<String>)
        ensures
            match *self {
                Number::Integer(n) => r matches Some(text) && to_string_from_display_ensures::<
                    i64,
                >(&n, text),
                Number::Float(_) => r is None,
            },
    {
        match self {
            Number::Integer(n) => Some(n.to_string()),
            Number::Float(_) => None,
        }
    }
}

/// `==` on numbers is `equals`. The type has no `Eq`: the equality is not
/// reflexive, since a NaN does not equal itself.
impl PartialEq for Number {
    fn eq(&self, other: &Self) -> (r: bool) {
        match (self, other) {
            (Number::Integer(x), Number::Integer(y)) => *x == *y,
            (Number::Float(a), Number::Float(b)) => doubles_equal(*a, *b),
            (Number::Integer(x), Number::Float(b)) => integer_equals_double(*x, *b),
            (Number::Float(a), Number::Integer(y)) => integer_equals_double(*y, *a),
        }
    }
}

impl PartialEqSpecImpl for Number {
    open spec fn obeys_eq_spec() -> bool {
        true
    }

    open spec fn eq_spec(&self, other: &Self) -> bool {
        self.equals(*other)
    }
}

/// Two integers are equal exactly when they are the same integer.
pub proof fn lemma_integers_equal_when_same(x: i64, y: i64)
    ensures
        Number::Integer(x).equals(Number::Integer(y)) <==> x == y,
{
}

/// Two floats are equal exactly when the hardware compares them equal: a NaN
/// equals no float, not even itself, and the two zeros are equal.
pub proof fn lemma_floats_equal_natively(a: u64, b: u64)
    ensures
        Number::Float(a).equals(Number::Float(b)) <==> same_value(a, b),
        nan(a) ==> !Number::Float(a).equals(Number::Float(a)),
        !nan(a) ==> Number::Float(a).equals(Number::Float(a)),
{
}

/// An integer equals a float exactly when the float that the integer
/// converts to equals it; and it does not matter which of the two stands
/// first. `converted` is that float: the one with the value of the double
/// nearest to `x`.
pub proof fn lemma_integer_equals_float_by_conversion(x: i64, converted: u64, b: u64)
    requires
        has_integer_value(converted, nearest_double(x as int)),
    ensures
        Number::Integer(x).equals(Number::Float(b)) <==> Number::Float(converted).equals(
            Number::Float(b),
        ),
        Number::Integer(x).equals(Number::Float(b)) <==> Number::Float(b).equals(
            Number::Integer(x),
        ),
{
    lemma_integer_equals_by_conversion(x as int, converted, b);
}

/// Equality of numbers is symmetric.
pub proof fn lemma_equality_symmetric(a: Number, b: Number)
    ensures
        a.equals(b) <==> b.equals(a),
{
}

} // verus!
