use vstd::prelude::*;

verus! {

/// A stored value: one of a fixed set of primitive payloads, or the
/// empty default.
#[derive(Clone, Debug, PartialEq, Eq, PartialOrd, Ord, Hash)]
pub enum Value {
    Empty,
    Str(String),
    Integer(i64),
    Bool(bool),
    Binary(Vec<u8>),
}

/// Mathematical model of a [`Value`].
pub ghost enum VValue {
    Empty,
    Str(Seq<char>),
    Integer(i64),
    Bool(bool),
    Binary(Seq<u8>),
}

impl View for Value {
    type V = VValue;

    open spec fn view(&self) -> VValue {
        match self {
            Value::Empty => VValue::Empty,
            Value::Str(s) => VValue::Str(s@),
            Value::Integer(i) => VValue::Integer(*i),
            Value::Bool(b) => VValue::Bool(*b),
            Value::Binary(b) => VValue::Binary(b@),
        }
    }
}

impl Value {
    /// A copy of the value with the same model.
    pub fn duplicate(&self) -> (r: Value)
        ensures
            r@ == self@,
    {
        match self {
            Value::Empty => Value::Empty,
            Value::Str(s) => Value::Str(s.clone()),
            Value::Integer(i) => Value::Integer(*i),
            Value::Bool(b) => Value::Bool(*b),
            Value::Binary(b) => Value::Binary(b.clone()),
        }
    }
}

impl Default for Value {
    fn default() -> (r: Value)
        ensures
            r@ == VValue::Empty,
    {
        Value::Empty
    }
}

impl From<i64> for Value {
    fn from(i: i64) -> (r: Value)
        ensures
            r@ == VValue::Integer(i),
    {
        Value::Integer(i)
    }
}

impl vstd::std_specs::convert::FromSpecImpl<i64> for Value {
    open spec fn obeys_from_spec() -> bool {
        true
    }

    open spec fn from_spec(i: i64) -> Value {
        Value::Integer(i)
    }
}

impl From<bool> for Value {
    fn from(b: bool) -> (r: Value)
        ensures
            r@ == VValue::Bool(b),
    {
        Value::Bool(b)
    }
}

impl vstd::std_specs::convert::FromSpecImpl<bool> for Value {
    open spec fn obeys_from_spec() -> bool {
        true
    }

    open spec fn from_spec(b: bool) -> Value {
        Value::Bool(b)
    }
}

impl From<String> for Value {
    fn from(s: String) -> (r: Value)
        ensures
            r@ == VValue::Str(s@),
    {
        Value::Str(s)
    }
}

impl vstd::std_specs::convert::FromSpecImpl<String> for Value {
    open spec fn obeys_from_spec() -> bool {
        true
    }

    open spec fn from_spec(s: String) -> Value {
        Value::Str(s)
    }
}

impl From<&str> for Value {
    fn from(s: &str) -> (r: Value)
        ensures
            r@ == VValue::Str(s@),
    {
        Value::Str(s.to_string())
    }
}

impl vstd::std_specs::convert::FromSpecImpl<&str> for Value {
    open spec fn obeys_from_spec() -> bool {
        false
    }

    open spec fn from_spec(s: &str) -> Value {
        choose|v: Value| v@ == VValue::Str(s@)
    }
}

/// A key paired with a value.
#[derive(Clone, Debug, PartialEq, Eq, PartialOrd, Ord, Hash, Default)]
pub struct Kvpair {
    pub key: String,
    pub value: Value,
}

impl View for Kvpair {
    type V = (Seq<char>, VValue);

    open spec fn view(&self) -> (Seq<char>, VValue) {
        (self.key@, self.value@)
    }
}

impl Kvpair {
    pub fn new(key: &str, value: Value) -> (r: Kvpair)
        ensures
            r@ == (key@, value@),
    {
        Kvpair { key: key.to_string(), value }
    }
}

} // verus!
