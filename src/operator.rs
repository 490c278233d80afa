//! Binary operators on runtime values.

use vstd::prelude::*;
use crate::number::{i32_text, int_text};
use crate::text::{chars_of, concat_chars, string_of};
use crate::value::{Value, ValueView};

verus! {

/// Why a statement failed.
#[derive(Debug)]
pub enum CompileError {
    /// A malformed or empty statement.
    SyntaxError(String),
    /// A value or node of the wrong kind, or an unknown type name.
    InvalidType(String),
    /// A function or variable name that no store holds.
    LookupFailure(String),
    /// A statement that no compiler takes.
    RoutingFailure(String),
    /// An integer operation out of range, or a division by zero.
    ArithmeticError(String),
    /// Nesting or a loop went past the interpreter's bounds.
    LimitExceeded(String),
}

/// The kind of an error, for contracts.
pub enum ErrorKind {
    Syntax,
    Type,
    Lookup,
    Routing,
    Arithmetic,
    Limit,
}

/// The kind of `e`.
pub open spec fn kind_of(e: CompileError) -> ErrorKind {
    match e {
        CompileError::SyntaxError(_) => ErrorKind::Syntax,
        CompileError::InvalidType(_) => ErrorKind::Type,
        CompileError::LookupFailure(_) => ErrorKind::Lookup,
        CompileError::RoutingFailure(_) => ErrorKind::Routing,
        CompileError::ArithmeticError(_) => ErrorKind::Arithmetic,
        CompileError::LimitExceeded(_) => ErrorKind::Limit,
    }
}

/// An error of kind `k` with the message `msg`.
pub fn error_of(k: u8, msg: &str) -> (r: CompileError)
    ensures
        k == 0 ==> kind_of(r) == ErrorKind::Syntax,
        k == 1 ==> kind_of(r) == ErrorKind::Type,
        k == 2 ==> kind_of(r) == ErrorKind::Lookup,
        k == 3 ==> kind_of(r) == ErrorKind::Routing,
        k == 4 ==> kind_of(r) == ErrorKind::Arithmetic,
        k >= 5 ==> kind_of(r) == ErrorKind::Limit,
{
    let m = String::from_str(msg);
    if k == 0 {
        CompileError::SyntaxError(m)
    } else if k == 1 {
        CompileError::InvalidType(m)
    } else if k == 2 {
        CompileError::LookupFailure(m)
    } else if k == 3 {
        CompileError::RoutingFailure(m)
    } else if k == 4 {
        CompileError::ArithmeticError(m)
    } else {
        CompileError::LimitExceeded(m)
    }
}

/// What an operator gives: a value, an error of some kind, or work for the
/// host's native functions (an operand is a decimal).
pub enum Outcome {
    Value(ValueView),
    Fault(ErrorKind),
    Native,
}

/// 1 for true, 0 for false.
pub open spec fn flag(b: bool) -> ValueView {
    ValueView::Int(if b { 1 } else { 0 })
}

/// Integer division rounded toward zero.
pub open spec fn trunc_div(x: int, y: int) -> int {
    let q = (if x < 0 { -x } else { x }) / (if y < 0 { -y } else { y });
    if (x < 0) == (y < 0) {
        q
    } else {
        -q
    }
}

/// An integer result, or an arithmetic error where it is out of range.
pub open spec fn in_range(v: int) -> Outcome {
    if i32::MIN <= v <= i32::MAX {
        Outcome::Value(ValueView::Int(v as i32))
    } else {
        Outcome::Fault(ErrorKind::Arithmetic)
    }
}

/// What `a op b` gives. Arithmetic on integers is checked; comparisons and
/// `&&`/`||` give 1 or 0; `+` joins texts. A missing operand (`Null`) or a
/// mix of kinds is an error; a decimal operand is left to the host.
pub open spec fn binary(a: ValueView, op: Seq<char>, b: ValueView) -> Outcome {
    match (a, b) {
        (ValueView::Int(x), ValueView::Int(y)) => {
            let (x, y) = (x as int, y as int);
            if op == "+"@ {
                in_range(x + y)
            } else if op == "-"@ {
                in_range(x - y)
            } else if op == "*"@ {
                in_range(x * y)
            } else if op == "/"@ {
                if y == 0 { Outcome::Fault(ErrorKind::Arithmetic) } else { in_range(trunc_div(x, y)) }
            } else if op == "=="@ {
                Outcome::Value(flag(x == y))
            } else if op == "!="@ {
                Outcome::Value(flag(x != y))
            } else if op == "<"@ {
                Outcome::Value(flag(x < y))
            } else if op == ">"@ {
                Outcome::Value(flag(x > y))
            } else if op == "<="@ {
                Outcome::Value(flag(x <= y))
            } else if op == ">="@ {
                Outcome::Value(flag(x >= y))
            } else if op == "&&"@ {
                Outcome::Value(flag(x != 0 && y != 0))
            } else if op == "||"@ {
                Outcome::Value(flag(x != 0 || y != 0))
            } else {
                Outcome::Fault(ErrorKind::Syntax)
            }
        },
        (ValueView::Bool(x), ValueView::Bool(y)) => if op == "=="@ {
            Outcome::Value(flag(x == y))
        } else if op == "!="@ {
            Outcome::Value(flag(x != y))
        } else if op == "&&"@ {
            Outcome::Value(flag(x && y))
        } else if op == "||"@ {
            Outcome::Value(flag(x || y))
        } else {
            Outcome::Fault(ErrorKind::Type)
        },
        (ValueView::Char(x), ValueView::Char(y)) => if op == "=="@ {
            Outcome::Value(flag(x == y))
        } else if op == "!="@ {
            Outcome::Value(flag(x != y))
        } else if op == "<"@ {
            Outcome::Value(flag(x < y))
        } else if op == ">"@ {
            Outcome::Value(flag(x > y))
        } else if op == "<="@ {
            Outcome::Value(flag(x <= y))
        } else if op == ">="@ {
            Outcome::Value(flag(x >= y))
        } else {
            Outcome::Fault(ErrorKind::Type)
        },
        (ValueView::Text(x), ValueView::Text(y)) => if op == "+"@ {
            Outcome::Value(ValueView::Text(x + y))
        } else if op == "=="@ {
            Outcome::Value(flag(x == y))
        } else if op == "!="@ {
            Outcome::Value(flag(x != y))
        } else {
            Outcome::Fault(ErrorKind::Type)
        },
        (ValueView::Float(_), ValueView::Float(_)) => Outcome::Native,
        (ValueView::Float(_), ValueView::Int(_)) => Outcome::Native,
        (ValueView::Int(_), ValueView::Float(_)) => Outcome::Native,
        _ => Outcome::Fault(ErrorKind::Type),
    }
}

fn flag_value(b: bool) -> (r: Value)
    ensures
        r@ == flag(b),
{
    Value::Int(if b { 1 } else { 0 })
}

fn checked(v: i64) -> (r: Result<Value, CompileError>)
    ensures
        in_range(v as int) matches Outcome::Value(x) ==> r matches Ok(y) && y@ == x,
        in_range(v as int) matches Outcome::Fault(k) ==> r matches Err(e) && kind_of(e) == k,
{
    if -2147483648 <= v && v <= 2147483647 {
        Ok(Value::Int(v as i32))
    } else {
        Err(error_of(4, "integer out of range"))
    }
}

/// Applies `op` to `a` and `b` where the library can: the result is what
/// `binary` says, and `None` where it says the host's native functions are
/// needed.
pub fn apply_binary(a: &Value, op: &str, b: &Value) -> (r: Option<Result<Value, CompileError>>)
    ensures
        binary(a@, op@, b@) matches Outcome::Value(v) ==> r matches Some(Ok(x)) && x@ == v,
        binary(a@, op@, b@) matches Outcome::Fault(k) ==> r matches Some(Err(e)) && kind_of(e) == k,
        binary(a@, op@, b@) is Native ==> r is None,
{
    let o = String::from_str(op);
    proof {
        reveal_strlit("+");
        reveal_strlit("-");
        reveal_strlit("*");
        reveal_strlit("/");
        reveal_strlit("==");
        reveal_strlit("!=");
        reveal_strlit("<");
        reveal_strlit(">");
        reveal_strlit("<=");
        reveal_strlit(">=");
        reveal_strlit("&&");
        reveal_strlit("||");
    }
    let plus = o == String::from_str("+");
    let minus = o == String::from_str("-");
    let times = o == String::from_str("*");
    let div = o == String::from_str("/");
    let eq = o == String::from_str("==");
    let ne = o == String::from_str("!=");
    let lt = o == String::from_str("<");
    let gt = o == String::from_str(">");
    let le = o == String::from_str("<=");
    let ge = o == String::from_str(">=");
    let and = o == String::from_str("&&");
    let or = o == String::from_str("||");
    match (a, b) {
        (Value::Int(x), Value::Int(y)) => {
            let (x, y) = (*x as i64, *y as i64);
            if plus {
                Some(checked(x + y))
            } else if minus {
                Some(checked(x - y))
            } else if times {
                assert(-2147483648 <= x <= 2147483647 && -2147483648 <= y <= 2147483647);
                assert(-4611686018427387904 <= x * y <= 4611686018427387904) by (nonlinear_arith)
                    requires
                        -2147483648 <= x <= 2147483647,
                        -2147483648 <= y <= 2147483647,
                ;
                Some(checked(x * y))
            } else if div {
                if y == 0 {
                    Some(Err(error_of(4, "division by zero")))
                } else {
                    let ax = if x < 0 { -x } else { x };
                    let ay = if y < 0 { -y } else { y };
                    let q = ax / ay;
                    let v = if (x < 0) == (y < 0) { q } else { -q };
                    Some(checked(v))
                }
            } else if eq {
                Some(Ok(flag_value(x == y)))
            } else if ne {
                Some(Ok(flag_value(x != y)))
            } else if lt {
                Some(Ok(flag_value(x < y)))
            } else if gt {
                Some(Ok(flag_value(x > y)))
            } else if le {
                Some(Ok(flag_value(x <= y)))
            } else if ge {
                Some(Ok(flag_value(x >= y)))
            } else if and {
                Some(Ok(flag_value(x != 0 && y != 0)))
            } else if or {
                Some(Ok(flag_value(x != 0 || y != 0)))
            } else {
                Some(Err(error_of(0, "unknown operator")))
            }
        },
        (Value::Bool(x), Value::Bool(y)) => {
            if eq {
                Some(Ok(flag_value(*x == *y)))
            } else if ne {
                Some(Ok(flag_value(*x != *y)))
            } else if and {
                Some(Ok(flag_value(*x && *y)))
            } else if or {
                Some(Ok(flag_value(*x || *y)))
            } else {
                Some(Err(error_of(1, "operator not defined on booleans")))
            }
        },
        (Value::Char(x), Value::Char(y)) => {
            if eq {
                Some(Ok(flag_value(*x == *y)))
            } else if ne {
                Some(Ok(flag_value(*x != *y)))
            } else if lt {
                Some(Ok(flag_value(*x < *y)))
            } else if gt {
                Some(Ok(flag_value(*x > *y)))
            } else if le {
                Some(Ok(flag_value(*x <= *y)))
            } else if ge {
                Some(Ok(flag_value(*x >= *y)))
            } else {
                Some(Err(error_of(1, "operator not defined on characters")))
            }
        },
        (Value::Text(x), Value::Text(y)) => {
            if plus {
                let cx = chars_of(x.as_str());
                let cy = chars_of(y.as_str());
                Some(Ok(Value::Text(string_of(concat_chars(cx.as_slice(), cy.as_slice()).as_slice()))))
            } else if eq {
                Some(Ok(flag_value(*x == *y)))
            } else if ne {
                Some(Ok(flag_value(*x != *y)))
            } else {
                Some(Err(error_of(1, "operator not defined on strings")))
            }
        },
        (Value::Float(_), Value::Float(_)) => None,
        (Value::Float(_), Value::Int(_)) => None,
        (Value::Int(_), Value::Float(_)) => None,
        _ => Some(Err(error_of(1, "operands of different kinds"))),
    }
}

/// An integer operand as a decimal, for the host's native functions.
pub fn promoted(v: &Value) -> (r: Value)
    ensures
        v@ matches ValueView::Int(i) ==> r@ == ValueView::Float(int_text(i as int)),
        !(v@ is Int) ==> r@ == v@,
{
    match v {
        Value::Int(i) => Value::Float(string_of(i32_text(*i).as_slice())),
        _ => v.duplicate(),
    }
}

} // verus!
