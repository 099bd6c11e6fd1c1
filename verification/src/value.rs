//! The materialized JSON tree: strings, objects, arrays, values.

use vstd::prelude::*;

verus! {

use crate::number::Number;
use crate::span::Span;

/// A decoded JSON string, held as its UTF-8 bytes.
#[derive(Clone, Debug, PartialEq, Eq)]
pub struct JsonString {
    pub bytes: Vec<u8>,
}

impl View for JsonString {
    type V = Seq<u8>;

    open spec fn view(&self) -> Seq<u8> {
        self.bytes@
    }
}

impl JsonString {
    /// Copies the given bytes into a new string.
    pub fn from_slice(s: &[u8]) -> (r: JsonString)
        ensures
            r@ == s@,
    {
        JsonString { bytes: vstd::slice::slice_to_vec(s) }
    }

    /// Wraps an already decoded byte buffer.
    pub fn from_vec(bytes: Vec<u8>) -> (r: JsonString)
        ensures
            r@ == bytes@,
    {
        JsonString { bytes }
    }

    /// The UTF-8 bytes of the string.
    pub fn as_bytes(&self) -> (r: &[u8])
        ensures
            r@ == self@,
    {
        self.bytes.as_slice()
    }

    /// The byte length of the string.
    pub fn len(&self) -> (r: usize)
        ensures
            r == self@.len(),
    {
        self.bytes.len()
    }

    /// Whether the two strings hold the same bytes.
    pub fn eq_bytes(&self, other: &[u8]) -> (r: bool)
        ensures
            r == (self@ == other@),
    {
        crate::value::bytes_eq(self.bytes.as_slice(), other)
    }
}

/// Whether two byte slices hold the same bytes.
pub fn bytes_eq(a: &[u8], b: &[u8]) -> (r: bool)
    ensures
        r == (a@ == b@),
{
    if a.len() != b.len() {
        assert(a@ != b@) by {
            assert(a@.len() != b@.len());
        }
        return false;
    }
    let n = a.len();
    let mut i: usize = 0;
    while i < n
        invariant
            0 <= i <= n,
            n == a@.len() == b@.len(),
            forall|k: int| 0 <= k < i ==> a@[k] == b@[k],
        decreases n - i,
    {
        if a[i] != b[i] {
            assert(a@ != b@) by {
                assert(a@[i as int] != b@[i as int]);
            }
            return false;
        }
        i = i + 1;
    }
    assert(a@ =~= b@);
    true
}

/// A parsed JSON value; arrays and objects carry the spans of their parts.
#[derive(Debug, PartialEq, Eq)]
pub enum Value {
    /// `null`.
    Null,
    /// `true` or `false`.
    Boolean(bool),
    /// A number.
    Number(Number),
    /// A string.
    String(JsonString),
    /// An array, in source order.
    Array(Vec<Span<Value>>),
    /// An object, in source order, duplicate keys retained.
    Object(Object),
}

/// An object: the key/value pairs in source order. `get` returns the first
/// match.
#[derive(Debug, PartialEq, Eq)]
pub struct Object(pub Vec<(Span<JsonString>, Span<Value>)>);

impl Object {
    /// How many pairs the object holds (duplicates included).
    pub fn len(&self) -> (r: usize)
        ensures
            r == self.0@.len(),
    {
        self.0.len()
    }

    /// The first pair whose key equals `key`, if any.
    pub fn get_key_value(&self, key: &[u8]) -> (r: Option<&(Span<JsonString>, Span<Value>)>)
        ensures
            match r {
                Some(p) => exists|k: int| 0 <= k < self.0@.len() && self.0@[k].0.data@ == key@
                    && p == &self.0@[k]
                    && (forall|j: int| 0 <= j < k ==> self.0@[j].0.data@ != key@),
                None => forall|k: int| 0 <= k < self.0@.len() ==> self.0@[k].0.data@ != key@,
            },
    {
        let n = self.0.len();
        let mut i: usize = 0;
        while i < n
            invariant
                0 <= i <= n,
                n == self.0@.len(),
                forall|j: int| 0 <= j < i ==> self.0@[j].0.data@ != key@,
            decreases n - i,
        {
            if self.0[i].0.data.eq_bytes(key) {
                return Some(&self.0[i]);
            }
            i = i + 1;
        }
        None
    }

    /// The first value whose key equals `key`, if any.
    pub fn get(&self, key: &[u8]) -> (r: Option<&Span<Value>>)
        ensures
            match r {
                Some(v) => exists|k: int| 0 <= k < self.0@.len() && self.0@[k].0.data@ == key@
                    && v == &self.0@[k].1
                    && (forall|j: int| 0 <= j < k ==> self.0@[j].0.data@ != key@),
                None => forall|k: int| 0 <= k < self.0@.len() ==> self.0@[k].0.data@ != key@,
            },
    {
        match self.get_key_value(key) {
            Some(p) => Some(&p.1),
            None => None,
        }
    }
}

impl Value {
    /// Returns `()` if the value is `Null`.
    pub fn as_null(&self) -> (r: Option<()>)
        ensures
            r is Some <==> self is Null,
    {
        match self {
            Value::Null => Some(()),
            _ => None,
        }
    }

    /// The string bytes, if the value is a string.
    pub fn as_str(&self) -> (r: Option<&JsonString>)
        ensures
            match r {
                Some(v) => self matches Value::String(s) && v == s,
                None => !(self is String),
            },
    {
        match self {
            Value::String(v) => Some(v),
            _ => None,
        }
    }

    /// The boolean, if the value is a boolean.
    pub fn as_bool(&self) -> (r: Option<bool>)
        ensures
            r == (match *self {
                Value::Boolean(b) => Some(b),
                _ => None::<bool>,
            }),
    {
        match self {
            Value::Boolean(v) => Some(*v),
            _ => None,
        }
    }

    /// The number, if the value is a number.
    pub fn as_number(&self) -> (r: Option<Number>)
        ensures
            r == (match *self {
                Value::Number(n) => Some(n),
                _ => None::<Number>,
            }),
    {
        match self {
            Value::Number(v) => Some(*v),
            _ => None,
        }
    }

    /// The integer, if the value is a non-negative integer.
    pub fn as_u64(&self) -> (r: Option<u64>)
        ensures
            r == (match *self {
                Value::Number(Number::Unsigned(v)) => Some(v),
                _ => None::<u64>,
            }),
    {
        match self {
            Value::Number(Number::Unsigned(v)) => Some(*v),
            _ => None,
        }
    }

    /// The integer, if the value is a strictly negative integer.
    pub fn as_i64(&self) -> (r: Option<i64>)
        ensures
            r == (match *self {
                Value::Number(Number::Signed(v)) => Some(v),
                _ => None::<i64>,
            }),
    {
        match self {
            Value::Number(Number::Signed(v)) => Some(*v),
            _ => None,
        }
    }

    /// The IEEE-754 bit pattern, if the value is a double.
    pub fn as_float_bits(&self) -> (r: Option<u64>)
        ensures
            r == (match *self {
                Value::Number(Number::Float(v)) => Some(v),
                _ => None::<u64>,
            }),
    {
        match self {
            Value::Number(Number::Float(v)) => Some(*v),
            _ => None,
        }
    }

    /// The elements, if the value is an array.
    pub fn as_array(&self) -> (r: Option<&Vec<Span<Value>>>)
        ensures
            match r {
                Some(v) => self matches Value::Array(a) && v == a,
                None => !(self is Array),
            },
    {
        match self {
            Value::Array(v) => Some(v),
            _ => None,
        }
    }

    /// The object, if the value is an object.
    pub fn as_object(&self) -> (r: Option<&Object>)
        ensures
            match r {
                Some(v) => self matches Value::Object(o) && v == o,
                None => !(self is Object),
            },
    {
        match self {
            Value::Object(v) => Some(v),
            _ => None,
        }
    }

    /// Whether the value is `null`.
    pub fn is_null(&self) -> (r: bool)
        ensures
            r == (self is Null),
    {
        match self {
            Value::Null => true,
            _ => false,
        }
    }

    /// Whether the value is a string.
    pub fn is_str(&self) -> (r: bool)
        ensures
            r == (self is String),
    {
        match self {
            Value::String(_) => true,
            _ => false,
        }
    }

    /// Whether the value is a boolean.
    pub fn is_bool(&self) -> (r: bool)
        ensures
            r == (self is Boolean),
    {
        match self {
            Value::Boolean(_) => true,
            _ => false,
        }
    }

    /// Whether the value is a number.
    pub fn is_number(&self) -> (r: bool)
        ensures
            r == (self is Number),
    {
        match self {
            Value::Number(_) => true,
            _ => false,
        }
    }

    /// Whether the value is an array.
    pub fn is_array(&self) -> (r: bool)
        ensures
            r == (self is Array),
    {
        match self {
            Value::Array(_) => true,
            _ => false,
        }
    }

    /// Whether the value is an object.
    pub fn is_object(&self) -> (r: bool)
        ensures
            r == (self is Object),
    {
        match self {
            Value::Object(_) => true,
            _ => false,
        }
    }
}

impl Span<Value> {
    /// Returns the span alone if the value is `Null`.
    pub fn as_null(&self) -> (r: Option<Span<()>>)
        ensures
            r is Some <==> self.data is Null,
    {
        match &self.data {
            Value::Null => Some(Span { data: (), start: self.start, end: self.end }),
            _ => None,
        }
    }

    /// The string with the span, if the value is a string.
    pub fn as_str(&self) -> (r: Option<Span<&JsonString>>)
        ensures
            match r {
                Some(v) => self.data matches Value::String(s) && v.data == &s && v.start
                    == self.start && v.end == self.end,
                None => !(self.data is String),
            },
    {
        match &self.data {
            Value::String(v) => Some(Span { data: v, start: self.start, end: self.end }),
            _ => None,
        }
    }

    /// The boolean with the span, if the value is a boolean.
    pub fn as_bool(&self) -> (r: Option<Span<bool>>)
        ensures
            match r {
                Some(v) => self.data matches Value::Boolean(b) && v.data == b && v.start
                    == self.start && v.end == self.end,
                None => !(self.data is Boolean),
            },
    {
        match &self.data {
            Value::Boolean(v) => Some(Span { data: *v, start: self.start, end: self.end }),
            _ => None,
        }
    }

    /// The integer with the span, if the value is a non-negative integer.
    pub fn as_u64(&self) -> (r: Option<Span<u64>>)
        ensures
            match r {
                Some(v) => self.data matches Value::Number(Number::Unsigned(u)) && v.data == u
                    && v.start == self.start && v.end == self.end,
                None => !(self.data matches Value::Number(Number::Unsigned(_))),
            },
    {
        match &self.data {
            Value::Number(Number::Unsigned(v)) => Some(
                Span { data: *v, start: self.start, end: self.end },
            ),
            _ => None,
        }
    }

    /// The integer with the span, if the value is a strictly negative
    /// integer.
    pub fn as_i64(&self) -> (r: Option<Span<i64>>)
        ensures
            match r {
                Some(v) => self.data matches Value::Number(Number::Signed(u)) && v.data == u
                    && v.start == self.start && v.end == self.end,
                None => !(self.data matches Value::Number(Number::Signed(_))),
            },
    {
        match &self.data {
            Value::Number(Number::Signed(v)) => Some(
                Span { data: *v, start: self.start, end: self.end },
            ),
            _ => None,
        }
    }

    /// The number with the span, if the value is a number.
    pub fn as_number(&self) -> (r: Option<Span<Number>>)
        ensures
            match r {
                Some(v) => self.data matches Value::Number(n) && v.data == n && v.start
                    == self.start && v.end == self.end,
                None => !(self.data is Number),
            },
    {
        match &self.data {
            Value::Number(v) => Some(Span { data: *v, start: self.start, end: self.end }),
            _ => None,
        }
    }
}

} // verus!
