//! The dynamically typed runtime datum: a number or a text, with the
//! coercion rules between them and the binary operations on them.
//!
//! Numbers are 64-bit signed integers. Every operation that could leave
//! that range is reported as an error rather than wrapping silently.

use vstd::prelude::*;
use crate::numbers::{spec_num_text, spec_parse_num, num_to_text, parse_num};
use crate::text::{chars_lt, str_lt, string_from_chars};

verus! {

/// The mathematical content of a runtime value.
pub ghost enum SpecValue {
    Num(int),
    Text(Seq<char>),
}

/// A runtime error that stops the program: a text that an operator needed
/// as a number but that does not read as one; division by zero; a result
/// outside the numeric range; an operator character no rule covers.
#[derive(Debug)]
pub enum RunError {
    Coercion { text: String },
    DivideByZero,
    Overflow,
    UnknownOperator { operator: char },
}

pub ghost enum SpecRunError {
    Coercion(Seq<char>),
    DivideByZero,
    Overflow,
    UnknownOperator(char),
}

impl View for RunError {
    type V = SpecRunError;

    open spec fn view(&self) -> SpecRunError {
        match *self {
            RunError::Coercion { text } => SpecRunError::Coercion(text@),
            RunError::DivideByZero => SpecRunError::DivideByZero,
            RunError::Overflow => SpecRunError::Overflow,
            RunError::UnknownOperator { operator } => SpecRunError::UnknownOperator(operator),
        }
    }
}

#[derive(Debug)]
pub enum Value {
    /// A numeric value.
    Number(i64),
    /// A text value.
    Str(String),
}

impl View for Value {
    type V = SpecValue;

    open spec fn view(&self) -> SpecValue {
        match *self {
            Value::Number(n) => SpecValue::Num(n as int),
            Value::Str(s) => SpecValue::Text(s@),
        }
    }
}

impl Clone for Value {
    fn clone(&self) -> (r: Self)
        ensures
            r == *self,
    {
        match self {
            Value::Number(n) => Value::Number(*n),
            Value::Str(s) => Value::Str(s.clone()),
        }
    }
}

/// Numbers as conditions and comparison results: zero is false, one is true.
pub open spec fn bool_value(b: bool) -> SpecValue {
    SpecValue::Num(if b { 1int } else { 0int })
}

/// The text form of a value: a number in canonical decimal, a text as is.
pub open spec fn spec_to_text(v: SpecValue) -> Seq<char> {
    match v {
        SpecValue::Num(n) => spec_num_text(n),
        SpecValue::Text(s) => s,
    }
}

/// The numeric form of a value: a number as is, a text read as a decimal
/// numeral; a text that does not read as one is a coercion error.
pub open spec fn spec_to_num(v: SpecValue) -> Result<int, SpecRunError> {
    match v {
        SpecValue::Num(n) => Ok(n),
        SpecValue::Text(s) => match spec_parse_num(s) {
            Some(n) => Ok(n),
            None => Err(SpecRunError::Coercion(s)),
        },
    }
}

pub open spec fn value_result_view(r: Result<Value, RunError>) -> Result<SpecValue, SpecRunError> {
    match r {
        Ok(v) => Ok(v@),
        Err(e) => Err(e@),
    }
}

/// Division truncated toward zero, as the runtime divides.
pub open spec fn trunc_div(a: int, b: int) -> int {
    if a >= 0 && b > 0 {
        a / b
    } else if a < 0 && b < 0 {
        (-a) / (-b)
    } else if a < 0 {
        -((-a) / b)
    } else {
        -(a / (-b))
    }
}

/// What a binary operator yields on two evaluated operands. The dispatch is
/// by the left operand's tag for `=`, `+`, `<` and `>`; the remaining
/// arithmetic always coerces both sides to numbers. Operands are coerced
/// left before right, so the left coercion error wins.
pub open spec fn spec_apply_op(op: char, l: SpecValue, r: SpecValue) -> Result<
    SpecValue,
    SpecRunError,
> {
    if op == '=' {
        if l is Num {
            match (spec_to_num(l), spec_to_num(r)) {
                (Ok(a), Ok(b)) => Ok(bool_value(a == b)),
                (Err(e), _) => Err(e),
                (_, Err(e)) => Err(e),
            }
        } else {
            Ok(bool_value(spec_to_text(l) == spec_to_text(r)))
        }
    } else if op == '+' {
        if l is Num {
            match (spec_to_num(l), spec_to_num(r)) {
                (Ok(a), Ok(b)) => if i64::MIN <= a + b <= i64::MAX {
                    Ok(SpecValue::Num(a + b))
                } else {
                    Err(SpecRunError::Overflow)
                },
                (Err(e), _) => Err(e),
                (_, Err(e)) => Err(e),
            }
        } else {
            Ok(SpecValue::Text(spec_to_text(l) + spec_to_text(r)))
        }
    } else if op == '-' {
        match (spec_to_num(l), spec_to_num(r)) {
            (Ok(a), Ok(b)) => if i64::MIN <= a - b <= i64::MAX {
                Ok(SpecValue::Num(a - b))
            } else {
                Err(SpecRunError::Overflow)
            },
            (Err(e), _) => Err(e),
            (_, Err(e)) => Err(e),
        }
    } else if op == '*' {
        match (spec_to_num(l), spec_to_num(r)) {
            (Ok(a), Ok(b)) => if i64::MIN <= a * b <= i64::MAX {
                Ok(SpecValue::Num(a * b))
            } else {
                Err(SpecRunError::Overflow)
            },
            (Err(e), _) => Err(e),
            (_, Err(e)) => Err(e),
        }
    } else if op == '/' {
        match (spec_to_num(l), spec_to_num(r)) {
            (Ok(a), Ok(b)) => if b == 0 {
                Err(SpecRunError::DivideByZero)
            } else if i64::MIN <= trunc_div(a, b) <= i64::MAX {
                Ok(SpecValue::Num(trunc_div(a, b)))
            } else {
                Err(SpecRunError::Overflow)
            },
            (Err(e), _) => Err(e),
            (_, Err(e)) => Err(e),
        }
    } else if op == '<' {
        if l is Num {
            match (spec_to_num(l), spec_to_num(r)) {
                (Ok(a), Ok(b)) => Ok(bool_value(a < b)),
                (Err(e), _) => Err(e),
                (_, Err(e)) => Err(e),
            }
        } else {
            Ok(bool_value(chars_lt(spec_to_text(l), spec_to_text(r))))
        }
    } else if op == '>' {
        if l is Num {
            match (spec_to_num(l), spec_to_num(r)) {
                (Ok(a), Ok(b)) => Ok(bool_value(a > b)),
                (Err(e), _) => Err(e),
                (_, Err(e)) => Err(e),
            }
        } else {
            Ok(bool_value(chars_lt(spec_to_text(r), spec_to_text(l))))
        }
    } else {
        Err(SpecRunError::UnknownOperator(op))
    }
}

impl Value {
    pub fn number(value: i64) -> (r: Self)
        ensures
            r@ == SpecValue::Num(value as int),
    {
        Self::Number(value)
    }

    pub fn string(value: String) -> (r: Self)
        ensures
            r@ == SpecValue::Text(value@),
    {
        Self::Str(value)
    }

    pub fn with_bool(value: bool) -> (r: Self)
        ensures
            r@ == bool_value(value),
    {
        Self::Number(if value { 1 } else { 0 })
    }

    pub fn to_text(&self) -> (r: String)
        ensures
            r@ == spec_to_text(self@),
    {
        match self {
            Value::Number(v) => {
                let cs = num_to_text(*v);
                string_from_chars(&cs)
            },
            Value::Str(s) => s.clone(),
        }
    }

    pub fn to_number(&self) -> (r: Result<i64, RunError>)
        ensures
            r matches Ok(n) ==> spec_to_num(self@) == Ok::<int, SpecRunError>(n as int),
            r matches Err(e) ==> spec_to_num(self@) == Err::<int, SpecRunError>(e@),
    {
        match self {
            Value::Number(v) => Ok(*v),
            Value::Str(s) => match parse_num(s.as_str()) {
                Some(n) => Ok(n),
                None => Err(RunError::Coercion { text: s.clone() }),
            },
        }
    }

    pub fn is_numeric(&self) -> (r: bool)
        ensures
            r == (self@ is Num),
    {
        matches!(self, Value::Number(_))
    }
}

/// Applies one binary operator to two evaluated operands, exactly as
/// `spec_apply_op` reads it.
pub fn apply_op(op: char, left: &Value, right: &Value) -> (r: Result<Value, RunError>)
    ensures
        value_result_view(r) == spec_apply_op(op, left@, right@),
{
    if op == '=' {
        if left.is_numeric() {
            let a = match left.to_number() {
                Ok(a) => a,
                Err(e) => return Err(e),
            };
            let b = match right.to_number() {
                Ok(b) => b,
                Err(e) => return Err(e),
            };
            Ok(Value::with_bool(a == b))
        } else {
            let lt = left.to_text();
            let rt = right.to_text();
            Ok(Value::with_bool(lt == rt))
        }
    } else if op == '+' {
        if left.is_numeric() {
            let a = match left.to_number() {
                Ok(a) => a,
                Err(e) => return Err(e),
            };
            let b = match right.to_number() {
                Ok(b) => b,
                Err(e) => return Err(e),
            };
            match a.checked_add(b) {
                Some(s) => Ok(Value::Number(s)),
                None => Err(RunError::Overflow),
            }
        } else {
            let lt = left.to_text();
            let rt = right.to_text();
            Ok(Value::Str(lt.concat(rt.as_str())))
        }
    } else if op == '-' {
        let a = match left.to_number() {
            Ok(a) => a,
            Err(e) => return Err(e),
        };
        let b = match right.to_number() {
            Ok(b) => b,
            Err(e) => return Err(e),
        };
        match a.checked_sub(b) {
            Some(s) => Ok(Value::Number(s)),
            None => Err(RunError::Overflow),
        }
    } else if op == '*' {
        let a = match left.to_number() {
            Ok(a) => a,
            Err(e) => return Err(e),
        };
        let b = match right.to_number() {
            Ok(b) => b,
            Err(e) => return Err(e),
        };
        match a.checked_mul(b) {
            Some(s) => Ok(Value::Number(s)),
            None => Err(RunError::Overflow),
        }
    } else if op == '/' {
        let a = match left.to_number() {
            Ok(a) => a,
            Err(e) => return Err(e),
        };
        let b = match right.to_number() {
            Ok(b) => b,
            Err(e) => return Err(e),
        };
        if b == 0 {
            Err(RunError::DivideByZero)
        } else {
            match a.checked_div(b) {
                Some(q) => Ok(Value::Number(q)),
                None => Err(RunError::Overflow),
            }
        }
    } else if op == '<' {
        if left.is_numeric() {
            let a = match left.to_number() {
                Ok(a) => a,
                Err(e) => return Err(e),
            };
            let b = match right.to_number() {
                Ok(b) => b,
                Err(e) => return Err(e),
            };
            Ok(Value::with_bool(a < b))
        } else {
            let lt = left.to_text();
            let rt = right.to_text();
            Ok(Value::with_bool(str_lt(lt.as_str(), rt.as_str())))
        }
    } else if op == '>' {
        if left.is_numeric() {
            let a = match left.to_number() {
                Ok(a) => a,
                Err(e) => return Err(e),
            };
            let b = match right.to_number() {
                Ok(b) => b,
                Err(e) => return Err(e),
            };
            Ok(Value::with_bool(a > b))
        } else {
            let lt = left.to_text();
            let rt = right.to_text();
            Ok(Value::with_bool(str_lt(rt.as_str(), lt.as_str())))
        }
    } else {
        Err(RunError::UnknownOperator { operator: op })
    }
}

} // verus!
