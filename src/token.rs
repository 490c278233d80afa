//! Tokens: what the tokenizer makes of one statement.

use vstd::prelude::*;
use crate::number::{i32_text, int_text};
use crate::text::{string_of, chars_of};

verus! {

/// The kind of a token, with the fields that composite constructs carry.
#[derive(Debug, PartialEq, Eq)]
pub enum TokenTypes {
    /// An integer literal.
    Int,
    /// A string literal, quotes included.
    String,
    /// A character literal, quotes included.
    Char,
    /// `=`
    AssignmentOperator,
    /// `true`, `false`, `True` or `False`.
    Bool,
    /// One argument of a function call.
    FunctionArguments,
    /// An operator such as `+`, `==` or `&&`.
    Operator,
    /// `(`
    LeftParenthesis,
    /// `)`
    RightParenthesis,
    /// `func name(params) -> type { body }`
    Function {
        name: String,
        return_type: String,
        arguments: Vec<(String, String, String)>,
        block: Vec<String>,
    },
    /// The name of a called function.
    FunctionCall,
    /// `,`
    ArgumentSeparator,
    /// A name that refers to a variable.
    VariableCall,
    /// The arguments of a function call.
    FunctionCallArguments,
    /// `let`
    Assignment,
    /// `}`
    RightCurly,
    /// `{`
    LeftCurly,
    /// The name declared by `let`.
    Variable,
    /// The declared type that follows `:`.
    VarTypeAssignment,
    /// `->`
    ReturnTypeAssignment,
    /// `;`
    SemiColon,
    /// A comment.
    Comment,
    /// A decimal literal with a point.
    Float,
    /// `let name: array<type>` or `let name: dict<key, value>`
    Collection {
        name: String,
        collection_type: String,
        stored_value_type_single: String,
        stored_value_type_tuple: (String, String),
    },
    /// A name followed by `.`.
    ObjectCall { name: String },
    /// `[`
    LeftBracket,
    /// `]`
    RightBracket,
    /// `=>`
    FatArrow,
    /// No token was recognised.
    Unrecognized,
    /// `object.method(args)`
    Dot { object: String, method: String },
    /// `if (condition)`
    If { statement: String },
    /// `else {`
    Else,
    /// `elif (condition)`
    Elif { statement: String },
    /// `while (condition) { body }`
    While { statement: String, block: Vec<String> },
    /// `for (variable, start..end) { body }`
    For { variable: String, iterable: (i32, i32), block: Vec<String> },
    /// `break`
    Break,
    /// `continue`
    Continue,
    /// `try { body }`
    Try { block: Vec<String> },
    /// `catch { body }`
    Catch { block: Vec<String> },
    /// `finally { body }`
    Finally { block: Vec<String> },
    /// `!`
    Not,
    /// `return value;`
    ReturnStatement { value: String },
}

/// One token of a statement: its kind, how many characters it took, and
/// its text.
#[derive(Debug, PartialEq, Eq)]
pub struct ParseInfo {
    pub token: TokenTypes,
    pub chars_read: usize,
    pub value: String,
}

impl ParseInfo {
    /// A token of kind `token` that took `chars_read` characters.
    pub fn new(token: TokenTypes, chars_read: usize, value: String) -> (r: ParseInfo)
        ensures
            r == (ParseInfo { token, chars_read, value }),
    {
        ParseInfo { token, chars_read, value }
    }

    /// The token that stands for "nothing recognised": it takes no
    /// characters.
    pub fn none() -> (r: ParseInfo)
        ensures
            r.token == TokenTypes::Unrecognized,
            r.chars_read == 0,
            r.value@ == seq!['n', 'o', 'n', 'e'],
    {
        ParseInfo { token: TokenTypes::Unrecognized, chars_read: 0, value: string_of(&['n', 'o', 'n', 'e']) }
    }
}

/// The text of each string of `v`.
pub open spec fn texts(v: Seq<String>) -> Seq<Seq<char>> {
    v.map_values(|s: String| s@)
}

/// The debug rendering of a string: quoted, with special characters
/// escaped.
pub uninterp spec fn debug_str(s: Seq<char>) -> Seq<char>;

/// Relies on the `Debug` impl of `str`: a quoted, escaped rendering that
/// depends on the characters alone.
#[verifier::external_body]
fn debug_text(s: &str) -> (r: Vec<char>)
    ensures
        r@ == debug_str(s@),
{
    format!("{:?}", s).chars().collect()
}

/// `items` joined by `", "`.
pub open spec fn join_comma(items: Seq<Seq<char>>) -> Seq<char>
    decreases items.len(),
{
    if items.len() == 0 {
        Seq::empty()
    } else if items.len() == 1 {
        items[0]
    } else {
        join_comma(items.drop_last()) + seq![',', ' '] + items.last()
    }
}

/// The debug rendering of a list of strings.
pub open spec fn debug_list(v: Seq<Seq<char>>) -> Seq<char> {
    seq!['['] + join_comma(v.map_values(|s: Seq<char>| debug_str(s))) + seq![']']
}

/// The debug rendering of a triple of strings.
pub open spec fn debug_triple(a: Seq<char>, b: Seq<char>, c: Seq<char>) -> Seq<char> {
    seq!['('] + debug_str(a) + seq![',', ' '] + debug_str(b) + seq![',', ' '] + debug_str(c)
        + seq![')']
}

/// The debug rendering of a pair of strings.
pub open spec fn debug_pair(a: Seq<char>, b: Seq<char>) -> Seq<char> {
    seq!['('] + debug_str(a) + seq![',', ' '] + debug_str(b) + seq![')']
}

/// The debug rendering of a pair of integers.
pub open spec fn debug_int_pair(a: int, b: int) -> Seq<char> {
    seq!['('] + int_text(a) + seq![',', ' '] + int_text(b) + seq![')']
}

/// The debug rendering of each parameter triple, each followed by a space.
pub open spec fn params_text(v: Seq<(Seq<char>, Seq<char>, Seq<char>)>) -> Seq<char>
    decreases v.len(),
{
    if v.len() == 0 {
        Seq::empty()
    } else {
        params_text(v.drop_last()) + debug_triple(v.last().0, v.last().1, v.last().2) + seq![' ']
    }
}

/// The text of each parameter triple.
pub open spec fn param_texts(v: Seq<(String, String, String)>) -> Seq<(Seq<char>, Seq<char>, Seq<char>)> {
    v.map_values(|p: (String, String, String)| (p.0@, p.1@, p.2@))
}

fn push_all(out: &mut Vec<char>, s: &[char])
    ensures
        final(out)@ == old(out)@ + s@,
{
    let mut i: usize = 0;
    let ghost start = out@;
    while i < s.len()
        invariant
            i <= s@.len(),
            out@ == start + s@.subrange(0, i as int),
        decreases s@.len() - i,
    {
        out.push(s[i]);
        assert(s@.subrange(0, i + 1) =~= s@.subrange(0, i as int).push(s@[i as int]));
        i += 1;
    }
    assert(s@.subrange(0, i as int) =~= s@);
}

fn push_str(out: &mut Vec<char>, s: &str)
    ensures
        final(out)@ == old(out)@ + s@,
{
    let v = chars_of(s);
    push_all(out, v.as_slice());
}

fn debug_list_chars(v: &Vec<String>) -> (r: Vec<char>)
    ensures
        r@ == debug_list(texts(v@)),
{
    let mut out: Vec<char> = vec!['['];
    let mut i: usize = 0;
    let ghost items = texts(v@).map_values(|s: Seq<char>| debug_str(s));
    while i < v.len()
        invariant
            i <= v@.len(),
            items == texts(v@).map_values(|s: Seq<char>| debug_str(s)),
            out@ == seq!['['] + join_comma(items.subrange(0, i as int)),
        decreases v@.len() - i,
    {
        let d = debug_text(v[i].as_str());
        proof {
            assert(items.subrange(0, i + 1).drop_last() =~= items.subrange(0, i as int));
            assert(items[i as int] == d@);
        }
        if i > 0 {
            out.push(',');
            out.push(' ');
        } else {
            assert(items.subrange(0, 1) =~= seq![d@]);
            assert(seq!['['] + Seq::<char>::empty() =~= seq!['[']);
        }
        push_all(&mut out, d.as_slice());
        proof {
            if i > 0 {
                assert(out@ =~= seq!['['] + (join_comma(items.subrange(0, i as int)) + seq![',', ' ']
                    + items[i as int]));
            }
        }
        i += 1;
    }
    out.push(']');
    assert(items.subrange(0, i as int) =~= items);
    out
}

fn debug_triple_chars(a: &str, b: &str, c: &str) -> (r: Vec<char>)
    ensures
        r@ == debug_triple(a@, b@, c@),
{
    let mut out: Vec<char> = vec!['('];
    push_all(&mut out, debug_text(a).as_slice());
    out.push(',');
    out.push(' ');
    push_all(&mut out, debug_text(b).as_slice());
    out.push(',');
    out.push(' ');
    push_all(&mut out, debug_text(c).as_slice());
    out.push(')');
    assert(out@ =~= debug_triple(a@, b@, c@));
    out
}

/// The text that a token renders to.
pub open spec fn display(t: TokenTypes) -> Seq<char> {
    match t {
        TokenTypes::ObjectCall { name } => "Object Call: name: "@ + name@,
        TokenTypes::Dot { object, method } => "Dot: "@ + object@ + "."@ + method@,
        TokenTypes::Function { name, return_type, arguments, block } => "Function: "@ + name@
            + " "@ + return_type@ + " "@ + debug_str(params_text(param_texts(arguments@)))
            + ", "@ + debug_list(texts(block@)),
        TokenTypes::Not => "Not"@,
        TokenTypes::Else => "Else"@,
        TokenTypes::Elif { statement } => "Elif: "@ + statement@,
        TokenTypes::If { statement } => "If: "@ + statement@,
        TokenTypes::While { statement, block } => "While: "@ + statement@ + ", Block: "@
            + debug_list(texts(block@)),
        TokenTypes::For { variable, iterable, block } => "For: Var: "@ + variable@ + ", Iter: "@
            + debug_int_pair(iterable.0 as int, iterable.1 as int) + ", Block: "@ + debug_list(
            texts(block@),
        ),
        TokenTypes::Break => "Break"@,
        TokenTypes::Continue => "Continue"@,
        TokenTypes::Try { .. } => "Try"@,
        TokenTypes::Catch { .. } => "Catch"@,
        TokenTypes::Finally { .. } => "Finally"@,
        TokenTypes::FatArrow => "FatArrow"@,
        TokenTypes::FunctionCallArguments => "FunctionCallArguments"@,
        TokenTypes::Float => "Float"@,
        TokenTypes::SemiColon => "SemiColon"@,
        TokenTypes::FunctionArguments => "FunctionArguments"@,
        TokenTypes::Int => "Int"@,
        TokenTypes::String => "String"@,
        TokenTypes::Char => "Char"@,
        TokenTypes::Operator => "Operator"@,
        TokenTypes::AssignmentOperator => "AssignmentOperator"@,
        TokenTypes::Bool => "Bool"@,
        TokenTypes::LeftParenthesis => "LeftParenthesis"@,
        TokenTypes::RightParenthesis => "RightParenthesis"@,
        TokenTypes::FunctionCall => "FunctionCall"@,
        TokenTypes::Variable => "Variable"@,
        TokenTypes::VariableCall => "VariableCall"@,
        TokenTypes::ArgumentSeparator => "ArgumentSeparator"@,
        TokenTypes::Assignment => "Assignment"@,
        TokenTypes::VarTypeAssignment => "VarTypeAssignment"@,
        TokenTypes::RightCurly => "RightCurly"@,
        TokenTypes::Collection {
            name,
            collection_type,
            stored_value_type_single,
            stored_value_type_tuple,
        } => "Collection: "@ + name@ + " "@ + collection_type@ + " "@
            + stored_value_type_single@ + " "@ + debug_pair(
            stored_value_type_tuple.0@,
            stored_value_type_tuple.1@,
        ),
        TokenTypes::LeftCurly => "LeftCurly"@,
        TokenTypes::ReturnTypeAssignment => "ReturnTypeAssignment"@,
        TokenTypes::Comment => "Comment"@,
        TokenTypes::RightBracket => "RightBracket"@,
        TokenTypes::LeftBracket => "LeftBracket"@,
        TokenTypes::ReturnStatement { value } => "ReturnStatement: "@ + value@,
        TokenTypes::Unrecognized => "None"@,
    }
}

fn params_chars(v: &Vec<(String, String, String)>) -> (r: Vec<char>)
    ensures
        r@ == params_text(param_texts(v@)),
{
    let mut out: Vec<char> = Vec::new();
    let mut i: usize = 0;
    let ghost ps = param_texts(v@);
    while i < v.len()
        invariant
            i <= v@.len(),
            ps == param_texts(v@),
            out@ == params_text(ps.subrange(0, i as int)),
        decreases v@.len() - i,
    {
        let t = debug_triple_chars(v[i].0.as_str(), v[i].1.as_str(), v[i].2.as_str());
        push_all(&mut out, t.as_slice());
        out.push(' ');
        proof {
            assert(ps.subrange(0, i + 1).drop_last() =~= ps.subrange(0, i as int));
            assert(ps.subrange(0, i + 1).last() == ps[i as int]);
        }
        i += 1;
    }
    assert(ps.subrange(0, i as int) =~= ps);
    out
}

impl TokenTypes {
    /// The text that the token renders to: its kind, then the fields that
    /// it carries.
    pub fn to_string(&self) -> (r: String)
        ensures
            r@ == display(*self),
    {
        let mut out: Vec<char> = Vec::new();
        match self {
            TokenTypes::ObjectCall { name } => {
                push_str(&mut out, "Object Call: name: ");
                push_str(&mut out, name.as_str());
            },
            TokenTypes::Dot { object, method } => {
                push_str(&mut out, "Dot: ");
                push_str(&mut out, object.as_str());
                push_str(&mut out, ".");
                push_str(&mut out, method.as_str());
            },
            TokenTypes::Function { name, return_type, arguments, block } => {
                push_str(&mut out, "Function: ");
                push_str(&mut out, name.as_str());
                push_str(&mut out, " ");
                push_str(&mut out, return_type.as_str());
                push_str(&mut out, " ");
                let ps = params_chars(arguments);
                let ps_text = string_of(ps.as_slice());
                push_all(&mut out, debug_text(ps_text.as_str()).as_slice());
                push_str(&mut out, ", ");
                push_all(&mut out, debug_list_chars(block).as_slice());
            },
            TokenTypes::Not => push_str(&mut out, "Not"),
            TokenTypes::Else => push_str(&mut out, "Else"),
            TokenTypes::Elif { statement } => {
                push_str(&mut out, "Elif: ");
                push_str(&mut out, statement.as_str());
            },
            TokenTypes::If { statement } => {
                push_str(&mut out, "If: ");
                push_str(&mut out, statement.as_str());
            },
            TokenTypes::While { statement, block } => {
                push_str(&mut out, "While: ");
                push_str(&mut out, statement.as_str());
                push_str(&mut out, ", Block: ");
                push_all(&mut out, debug_list_chars(block).as_slice());
            },
            TokenTypes::For { variable, iterable, block } => {
                push_str(&mut out, "For: Var: ");
                push_str(&mut out, variable.as_str());
                push_str(&mut out, ", Iter: ");
                out.push('(');
                push_all(&mut out, i32_text(iterable.0).as_slice());
                out.push(',');
                out.push(' ');
                push_all(&mut out, i32_text(iterable.1).as_slice());
                out.push(')');
                push_str(&mut out, ", Block: ");
                push_all(&mut out, debug_list_chars(block).as_slice());
            },
            TokenTypes::Break => push_str(&mut out, "Break"),
            TokenTypes::Continue => push_str(&mut out, "Continue"),
            TokenTypes::Try { .. } => push_str(&mut out, "Try"),
            TokenTypes::Catch { .. } => push_str(&mut out, "Catch"),
            TokenTypes::Finally { .. } => push_str(&mut out, "Finally"),
            TokenTypes::FatArrow => push_str(&mut out, "FatArrow"),
            TokenTypes::FunctionCallArguments => push_str(&mut out, "FunctionCallArguments"),
            TokenTypes::Float => push_str(&mut out, "Float"),
            TokenTypes::SemiColon => push_str(&mut out, "SemiColon"),
            TokenTypes::FunctionArguments => push_str(&mut out, "FunctionArguments"),
            TokenTypes::Int => push_str(&mut out, "Int"),
            TokenTypes::String => push_str(&mut out, "String"),
            TokenTypes::Char => push_str(&mut out, "Char"),
            TokenTypes::Operator => push_str(&mut out, "Operator"),
            TokenTypes::AssignmentOperator => push_str(&mut out, "AssignmentOperator"),
            TokenTypes::Bool => push_str(&mut out, "Bool"),
            TokenTypes::LeftParenthesis => push_str(&mut out, "LeftParenthesis"),
            TokenTypes::RightParenthesis => push_str(&mut out, "RightParenthesis"),
            TokenTypes::FunctionCall => push_str(&mut out, "FunctionCall"),
            TokenTypes::Variable => push_str(&mut out, "Variable"),
            TokenTypes::VariableCall => push_str(&mut out, "VariableCall"),
            TokenTypes::ArgumentSeparator => push_str(&mut out, "ArgumentSeparator"),
            TokenTypes::Assignment => push_str(&mut out, "Assignment"),
            TokenTypes::VarTypeAssignment => push_str(&mut out, "VarTypeAssignment"),
            TokenTypes::RightCurly => push_str(&mut out, "RightCurly"),
            TokenTypes::Collection {
                name,
                collection_type,
                stored_value_type_single,
                stored_value_type_tuple,
            } => {
                push_str(&mut out, "Collection: ");
                push_str(&mut out, name.as_str());
                push_str(&mut out, " ");
                push_str(&mut out, collection_type.as_str());
                push_str(&mut out, " ");
                push_str(&mut out, stored_value_type_single.as_str());
                push_str(&mut out, " ");
                out.push('(');
                push_all(&mut out, debug_text(stored_value_type_tuple.0.as_str()).as_slice());
                out.push(',');
                out.push(' ');
                push_all(&mut out, debug_text(stored_value_type_tuple.1.as_str()).as_slice());
                out.push(')');
            },
            TokenTypes::LeftCurly => push_str(&mut out, "LeftCurly"),
            TokenTypes::ReturnTypeAssignment => push_str(&mut out, "ReturnTypeAssignment"),
            TokenTypes::Comment => push_str(&mut out, "Comment"),
            TokenTypes::RightBracket => push_str(&mut out, "RightBracket"),
            TokenTypes::LeftBracket => push_str(&mut out, "LeftBracket"),
            TokenTypes::ReturnStatement { value } => {
                push_str(&mut out, "ReturnStatement: ");
                push_str(&mut out, value.as_str());
            },
            TokenTypes::Unrecognized => push_str(&mut out, "None"),
        }
        proof {
            assert(out@ =~= display(*self));
        }
        string_of(out.as_slice())
    }
}

} // verus!
