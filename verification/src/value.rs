use vstd::prelude::*;

use crate::text::TextRange;

verus! {

/// One node of the untyped configuration tree an external loader supplies:
/// a map, an array, a string, a number, a boolean or null, each node
/// carrying the source range it was read from.
pub struct Value {
    pub range: TextRange,
    pub data: ValueData,
}

pub enum ValueData {
    Null,
    Bool(bool),
    Number(i64),
    Str(String),
    Array(Vec<Value>),
    /// Map entries in source order; keys are value nodes themselves, so a
    /// malformed (non-string) key still has a range to report.
    Object(Vec<(Value, Value)>),
}

impl Value {
    /// The source range this node was read from.
    pub fn range(&self) -> (r: TextRange)
        ensures
            r == self.range,
    {
        self.range
    }

    pub fn new_null(range: TextRange) -> (r: Value)
        ensures
            r.range == range,
            r.data is Null,
    {
        Value { range, data: ValueData::Null }
    }

    pub fn new_bool(b: bool, range: TextRange) -> (r: Value)
        ensures
            r.range == range,
            r.data == ValueData::Bool(b),
    {
        Value { range, data: ValueData::Bool(b) }
    }

    pub fn new_number(n: i64, range: TextRange) -> (r: Value)
        ensures
            r.range == range,
            r.data == ValueData::Number(n),
    {
        Value { range, data: ValueData::Number(n) }
    }

    pub fn new_str(s: String, range: TextRange) -> (r: Value)
        ensures
            r.range == range,
            r.data == ValueData::Str(s),
    {
        Value { range, data: ValueData::Str(s) }
    }

    pub fn new_array(items: Vec<Value>, range: TextRange) -> (r: Value)
        ensures
            r.range == range,
            r.data == ValueData::Array(items),
    {
        Value { range, data: ValueData::Array(items) }
    }

    pub fn new_object(entries: Vec<(Value, Value)>, range: TextRange) -> (r: Value)
        ensures
            r.range == range,
            r.data == ValueData::Object(entries),
    {
        Value { range, data: ValueData::Object(entries) }
    }
}

} // verus!
