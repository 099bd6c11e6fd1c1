//! The numeric discriminated union produced by the parser.

use vstd::prelude::*;

verus! {

/// A parsed JSON number.
///
/// Integers in `0 ..= u64::MAX` are `Unsigned`; strictly negative integers
/// down to `i64::MIN` are `Signed`; everything else is a finite double,
/// stored by its IEEE-754 bit pattern so the numeric engine stays within
/// integer arithmetic.
#[derive(Clone, Copy, Debug, PartialEq, Eq, Structural)]
pub enum Number {
    /// A non-negative integer.
    Unsigned(u64),
    /// A strictly negative integer.
    Signed(i64),
    /// A finite double, by its IEEE-754 bit pattern.
    Float(u64),
}

impl Number {
    /// Returns the value if it is a non-negative integer.
    pub fn as_u64(&self) -> (r: Option<u64>)
        ensures
            r == (match *self {
                Number::Unsigned(v) => Some(v),
                _ => None::<u64>,
            }),
    {
        match self {
            Number::Unsigned(v) => Some(*v),
            _ => None,
        }
    }

    /// Returns the value if it is a strictly negative integer.
    pub fn as_i64(&self) -> (r: Option<i64>)
        ensures
            r == (match *self {
                Number::Signed(v) => Some(v),
                _ => None::<i64>,
            }),
    {
        match self {
            Number::Signed(v) => Some(*v),
            _ => None,
        }
    }

    /// Returns the IEEE-754 bit pattern if the value is a double.
    pub fn as_float_bits(&self) -> (r: Option<u64>)
        ensures
            r == (match *self {
                Number::Float(v) => Some(v),
                _ => None::<u64>,
            }),
    {
        match self {
            Number::Float(v) => Some(*v),
            _ => None,
        }
    }

    /// Whether the value is a non-negative integer.
    pub fn is_u64(&self) -> (r: bool)
        ensures
            r == (self is Unsigned),
    {
        match self {
            Number::Unsigned(_) => true,
            _ => false,
        }
    }

    /// Whether the value is a strictly negative integer.
    pub fn is_i64(&self) -> (r: bool)
        ensures
            r == (self is Signed),
    {
        match self {
            Number::Signed(_) => true,
            _ => false,
        }
    }

    /// Whether the value is a double.
    pub fn is_f64(&self) -> (r: bool)
        ensures
            r == (self is Float),
    {
        match self {
            Number::Float(_) => true,
            _ => false,
        }
    }
}

} // verus!
