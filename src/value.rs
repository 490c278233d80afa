//! Runtime values, declared types, and the runtime stores that statements
//! share.

use vstd::prelude::*;
use crate::number::{i32_text, int_text};
use crate::text::string_of;

verus! {

/// A value at run time. A decimal is kept as its written text: arithmetic
/// on decimals is done by the host's native functions.
#[derive(Debug, PartialEq, Eq)]
pub enum Value {
    Int(i32),
    Float(String),
    Text(String),
    Char(char),
    Bool(bool),
    Null,
}

/// The type that a variable or a collection is declared with.
#[derive(Debug, Clone, Copy, PartialEq, Eq, Structural)]
pub enum ValueType {
    Int,
    Float,
    Text,
    Char,
    Bool,
}

/// What a value is: its kind and its content, text as characters.
pub enum ValueView {
    Int(i32),
    Float(Seq<char>),
    Text(Seq<char>),
    Char(char),
    Bool(bool),
    Null,
}

impl View for Value {
    type V = ValueView;

    open spec fn view(&self) -> ValueView {
        match self {
            Value::Int(i) => ValueView::Int(*i),
            Value::Float(f) => ValueView::Float(f@),
            Value::Text(t) => ValueView::Text(t@),
            Value::Char(c) => ValueView::Char(*c),
            Value::Bool(b) => ValueView::Bool(*b),
            Value::Null => ValueView::Null,
        }
    }
}

impl Value {
    /// A copy of the value.
    pub fn duplicate(&self) -> (r: Value)
        ensures
            r == *self,
            r@ == self@,
    {
        match self {
            Value::Int(i) => Value::Int(*i),
            Value::Float(f) => Value::Float(f.clone()),
            Value::Text(t) => Value::Text(t.clone()),
            Value::Char(c) => Value::Char(*c),
            Value::Bool(b) => Value::Bool(*b),
            Value::Null => Value::Null,
        }
    }
}

/// The type that a type name stands for: `int`, `float`, `string`, `char`
/// or `bool`.
pub open spec fn type_named(name: Seq<char>) -> Option<ValueType> {
    if name == "int"@ {
        Some(ValueType::Int)
    } else if name == "float"@ {
        Some(ValueType::Float)
    } else if name == "string"@ {
        Some(ValueType::Text)
    } else if name == "char"@ {
        Some(ValueType::Char)
    } else if name == "bool"@ {
        Some(ValueType::Bool)
    } else {
        None
    }
}

/// The type that the type name `name` stands for, if any.
pub fn type_of_name(name: &str) -> (r: Option<ValueType>)
    ensures
        r == type_named(name@),
{
    let n = String::from_str(name);
    if n == String::from_str("int") {
        Some(ValueType::Int)
    } else if n == String::from_str("float") {
        Some(ValueType::Float)
    } else if n == String::from_str("string") {
        Some(ValueType::Text)
    } else if n == String::from_str("char") {
        Some(ValueType::Char)
    } else if n == String::from_str("bool") {
        Some(ValueType::Bool)
    } else {
        None
    }
}

/// Whether `v` is of type `t`.
pub open spec fn has_type(v: ValueView, t: ValueType) -> bool {
    match (v, t) {
        (ValueView::Int(_), ValueType::Int) => true,
        (ValueView::Float(_), ValueType::Float) => true,
        (ValueView::Text(_), ValueType::Text) => true,
        (ValueView::Char(_), ValueType::Char) => true,
        (ValueView::Bool(_), ValueType::Bool) => true,
        _ => false,
    }
}

/// `v` as a value of type `t`: a value of that type stays as it is, an
/// integer becomes the decimal of its digits, 0 and 1 become booleans, and
/// a character becomes a one-character string. Anything else cannot be
/// converted.
pub open spec fn coerced(v: ValueView, t: ValueType) -> Option<ValueView> {
    if has_type(v, t) {
        Some(v)
    } else {
        match (v, t) {
            (ValueView::Int(i), ValueType::Float) => Some(ValueView::Float(int_text(i as int))),
            (ValueView::Int(i), ValueType::Bool) => if i == 0 {
                Some(ValueView::Bool(false))
            } else if i == 1 {
                Some(ValueView::Bool(true))
            } else {
                None
            },
            (ValueView::Char(c), ValueType::Text) => Some(ValueView::Text(seq![c])),
            _ => None,
        }
    }
}

/// Converts `v` to type `t`, as `coerced` says.
pub fn coerce(v: Value, t: ValueType) -> (r: Option<Value>)
    ensures
        r matches Some(x) ==> coerced(v@, t) == Some(x@),
        r is None ==> coerced(v@, t) is None,
{
    match (v, t) {
        (Value::Int(i), ValueType::Int) => Some(Value::Int(i)),
        (Value::Float(f), ValueType::Float) => Some(Value::Float(f)),
        (Value::Text(x), ValueType::Text) => Some(Value::Text(x)),
        (Value::Char(c), ValueType::Char) => Some(Value::Char(c)),
        (Value::Bool(b), ValueType::Bool) => Some(Value::Bool(b)),
        (Value::Int(i), ValueType::Float) => Some(Value::Float(string_of(i32_text(i).as_slice()))),
        (Value::Int(i), ValueType::Bool) => if i == 0 {
            Some(Value::Bool(false))
        } else if i == 1 {
            Some(Value::Bool(true))
        } else {
            None
        },
        (Value::Char(c), ValueType::Text) => {
            let v: Vec<char> = vec![c];
            let text = string_of(v.as_slice());
            assert(text@ =~= seq![c]);
            Some(Value::Text(text))
        },
        _ => None,
    }
}

} // verus!
