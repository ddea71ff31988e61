use crate::errors::{type_err, ErrV, InterpreterError};
use crate::numeric::{fmt_bits, num_eq, num_eq_bits, num_to_string};
use vstd::prelude::*;
use vstd::string::StringExecFns;

verus! {

// The runtime value domain: text, a number (the bit pattern of a
// single-precision value), a boolean, or nil.  Equality is exact for
// text, booleans and nil; numbers are compared with an absolute
// tolerance, to absorb the representation error of decimal literals.

#[derive(Debug)]
pub enum Value {
    Str(String),
    Number(u32),
    Bool(bool),
    Nil,
}

/// The mathematical shape of a value.
pub enum ValueV {
    Str(Seq<char>),
    Num(u32),
    Bool(bool),
    Nil,
}

impl View for Value {
    type V = ValueV;

    open spec fn view(&self) -> ValueV {
        match self {
            Value::Str(s) => ValueV::Str(s@),
            Value::Number(n) => ValueV::Num(*n),
            Value::Bool(b) => ValueV::Bool(*b),
            Value::Nil => ValueV::Nil,
        }
    }
}

/// Value equality: exact on text, booleans and nil, tolerant on
/// numbers, and false across differing kinds.
pub open spec fn val_eq(a: ValueV, b: ValueV) -> bool {
    match (a, b) {
        (ValueV::Str(x), ValueV::Str(y)) => x == y,
        (ValueV::Num(x), ValueV::Num(y)) => num_eq_bits(x, y),
        (ValueV::Bool(x), ValueV::Bool(y)) => x == y,
        (ValueV::Nil, ValueV::Nil) => true,
        _ => false,
    }
}

/// The display text of a value: text prints raw, a number prints its
/// decimal rendering, booleans print `true`/`false`, nil prints `nil`.
pub open spec fn display_of(v: ValueV) -> Seq<char> {
    match v {
        ValueV::Str(s) => s,
        ValueV::Num(n) => fmt_bits(n),
        ValueV::Bool(b) => if b {
            "true"@
        } else {
            "false"@
        },
        ValueV::Nil => "nil"@,
    }
}

/// What coercing a value to a number yields: the bit pattern, or a
/// type error naming the value's actual kind.
pub open spec fn as_num_v(v: ValueV) -> Result<u32, ErrV> {
    match v {
        ValueV::Num(n) => Ok(n),
        ValueV::Bool(_) => Err(type_err("number"@, "boolean"@)),
        ValueV::Str(_) => Err(type_err("number"@, "string"@)),
        ValueV::Nil => Err(type_err("number"@, "nil"@)),
    }
}

/// What coercing a value to text yields: only text coerces.
pub open spec fn as_string_v(v: ValueV) -> Result<Seq<char>, ErrV> {
    match v {
        ValueV::Num(_) => Err(type_err("string"@, "number"@)),
        ValueV::Bool(_) => Err(type_err("string"@, "boolean"@)),
        ValueV::Str(s) => Ok(s),
        ValueV::Nil => Err(type_err("string"@, "nil"@)),
    }
}

/// What coercing a value to a boolean yields: booleans pass through,
/// nil coerces to false, numbers and text are refused.
pub open spec fn as_bool_v(v: ValueV) -> Result<bool, ErrV> {
    match v {
        ValueV::Num(_) => Err(type_err("boolean"@, "number"@)),
        ValueV::Bool(b) => Ok(b),
        ValueV::Str(_) => Err(type_err("boolean"@, "string"@)),
        ValueV::Nil => Ok(false),
    }
}

impl Value {
    /// An equal copy of this value.
    pub fn dup(&self) -> (r: Value)
        ensures
            r == self,
    {
        match self {
            Value::Str(s) => Value::Str(s.clone()),
            Value::Number(n) => Value::Number(*n),
            Value::Bool(b) => Value::Bool(*b),
            Value::Nil => Value::Nil,
        }
    }

    /// The display text of this value.
    pub fn display_text(&self) -> (r: String)
        ensures
            r@ == display_of(self@),
    {
        match self {
            Value::Str(s) => s.clone(),
            Value::Number(n) => num_to_string(*n),
            Value::Bool(b) => {
                if *b {
                    String::from_str("true")
                } else {
                    String::from_str("false")
                }
            },
            Value::Nil => String::from_str("nil"),
        }
    }

    /// Coerces this value to a number.
    pub fn as_num(&self) -> (r: Result<u32, InterpreterError>)
        ensures
            match r {
                Ok(n) => as_num_v(self@) == Ok::<u32, ErrV>(n),
                Err(e) => as_num_v(self@) == Err::<u32, ErrV>(e@),
            },
    {
        match self {
            Value::Number(n) => Ok(*n),
            Value::Bool(_) => Err(
                InterpreterError::type_error(
                    String::from_str("number"),
                    String::from_str("boolean"),
                ),
            ),
            Value::Str(_) => Err(
                InterpreterError::type_error(
                    String::from_str("number"),
                    String::from_str("string"),
                ),
            ),
            Value::Nil => Err(
                InterpreterError::type_error(String::from_str("number"), String::from_str("nil")),
            ),
        }
    }

    /// Coerces this value to text.
    pub fn as_string(&self) -> (r: Result<String, InterpreterError>)
        ensures
            match r {
                Ok(s) => as_string_v(self@) == Ok::<Seq<char>, ErrV>(s@),
                Err(e) => as_string_v(self@) == Err::<Seq<char>, ErrV>(e@),
            },
    {
        match self {
            Value::Number(_) => Err(
                InterpreterError::type_error(
                    String::from_str("string"),
                    String::from_str("number"),
                ),
            ),
            Value::Bool(_) => Err(
                InterpreterError::type_error(
                    String::from_str("string"),
                    String::from_str("boolean"),
                ),
            ),
            Value::Str(s) => Ok(s.clone()),
            Value::Nil => Err(
                InterpreterError::type_error(String::from_str("string"), String::from_str("nil")),
            ),
        }
    }

    /// Coerces this value to a boolean.
    pub fn as_bool(&self) -> (r: Result<bool, InterpreterError>)
        ensures
            match r {
                Ok(b) => as_bool_v(self@) == Ok::<bool, ErrV>(b),
                Err(e) => as_bool_v(self@) == Err::<bool, ErrV>(e@),
            },
    {
        match self {
            Value::Number(_) => Err(
                InterpreterError::type_error(
                    String::from_str("boolean"),
                    String::from_str("number"),
                ),
            ),
            Value::Bool(b) => Ok(*b),
            Value::Str(_) => Err(
                InterpreterError::type_error(
                    String::from_str("boolean"),
                    String::from_str("string"),
                ),
            ),
            Value::Nil => Ok(false),
        }
    }

    /// The equality test the language's `==` uses.  It is reflexive on
    /// every value whose number part, if any, is finite: a scanned
    /// numeric literal therefore equals its own parse under the
    /// tolerant comparison.
    pub fn equals(&self, other: &Value) -> (r: bool)
        ensures
            r == val_eq(self@, other@),
            self == other && (match self@ {
                ValueV::Num(n) => crate::numeric::is_finite_bits(n),
                _ => true,
            }) ==> r,
    {
        match self {
            Value::Str(s) => match other {
                Value::Str(o) => *s == *o,
                _ => false,
            },
            Value::Number(n) => match other {
                Value::Number(o) => num_eq(*n, *o),
                _ => false,
            },
            Value::Bool(b) => match other {
                Value::Bool(o) => *b == *o,
                _ => false,
            },
            Value::Nil => matches!(other, Value::Nil),
        }
    }
}

impl PartialEq for Value {
    fn eq(&self, other: &Self) -> (r: bool) {
        self.equals(other)
    }
}

impl vstd::std_specs::cmp::PartialEqSpecImpl for Value {
    open spec fn obeys_eq_spec() -> bool {
        true
    }

    open spec fn eq_spec(&self, other: &Value) -> bool {
        val_eq(self@, other@)
    }
}

} // verus!
