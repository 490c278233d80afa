//! The built-in function registry, and the built-ins on text that the
//! library computes itself.

use vstd::prelude::*;
use crate::text::{chars_of, concat_chars, string_of, trim_chars, trim_seq};

verus! {

/// The names of the built-in functions.
pub open spec fn builtin_names() -> Seq<Seq<char>> {
    seq![
        "max"@, "min"@, "add"@, "sub"@, "mult"@, "divide"@, "pow"@, "log"@, "floor"@, "ceil"@,
        "round"@, "abs"@, "sqrt"@, "sin"@, "cos"@, "tan"@, "rand"@, "print"@, "println"@,
        "concat"@, "to_uppercase"@, "to_lowercase"@, "trim"@, "input"@, "read"@, "write"@,
        "range"@,
    ]
}

/// Whether `name` is a built-in function.
pub open spec fn is_builtin(name: Seq<char>) -> bool {
    builtin_names().contains(name)
}

/// Whether `name` is a built-in function.
pub fn is_builtin_name(name: &str) -> (r: bool)
    ensures
        r == is_builtin(name@),
{
    let names: [&str; 27] = [
        "max", "min", "add", "sub", "mult", "divide", "pow", "log", "floor", "ceil", "round",
        "abs", "sqrt", "sin", "cos", "tan", "rand", "print", "println", "concat", "to_uppercase",
        "to_lowercase", "trim", "input", "read", "write", "range",
    ];
    let target = String::from_str(name);
    let mut i: usize = 0;
    while i < 27
        invariant
            i <= 27,
            target@ == name@,
            forall|k: int| 0 <= k < 27 ==> #[trigger] names@[k]@ == builtin_names()[k],
            forall|k: int| 0 <= k < i ==> builtin_names()[k] != name@,
        decreases 27 - i,
    {
        if String::from_str(names[i]) == target {
            assert(builtin_names()[i as int] == name@);
            return true;
        }
        i += 1;
    }
    assert(!builtin_names().contains(name@)) by {
        if builtin_names().contains(name@) {
            let k = choose|k: int| 0 <= k < builtin_names().len() && builtin_names()[k] == name@;
            assert(builtin_names().len() == 27);
        }
    }
    false
}

/// The upper-case form of a text.
pub uninterp spec fn upper_of(s: Seq<char>) -> Seq<char>;

/// The lower-case form of a text.
pub uninterp spec fn lower_of(s: Seq<char>) -> Seq<char>;

/// Relies on `str::to_uppercase`: the upper-case mapping of each character,
/// which depends on the text alone.
#[verifier::external_body]
fn upper_case(s: &str) -> (r: String)
    ensures
        r@ == upper_of(s@),
{
    s.to_uppercase()
}

/// Relies on `str::to_lowercase`: the lower-case mapping of each character,
/// which depends on the text alone.
#[verifier::external_body]
fn lower_case(s: &str) -> (r: String)
    ensures
        r@ == lower_of(s@),
{
    s.to_lowercase()
}

/// The text `a` followed by the text `b`.
pub fn concat(a: String, b: String) -> (r: String)
    ensures
        r@ == a@ + b@,
{
    let x = chars_of(a.as_str());
    let y = chars_of(b.as_str());
    string_of(concat_chars(x.as_slice(), y.as_slice()).as_slice())
}

/// The text in upper case.
pub fn to_uppercase(s: String) -> (r: String)
    ensures
        r@ == upper_of(s@),
{
    upper_case(s.as_str())
}

/// The text in lower case.
pub fn to_lowercase(s: String) -> (r: String)
    ensures
        r@ == lower_of(s@),
{
    lower_case(s.as_str())
}

/// The text without white space at either end.
pub fn trim(s: String) -> (r: String)
    ensures
        r@ == trim_seq(s@),
{
    let x = chars_of(s.as_str());
    string_of(trim_chars(x.as_slice()).as_slice())
}

} // verus!
