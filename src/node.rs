//! Syntax nodes: each token of a statement becomes one node, with literal
//! text parsed into values.

use vstd::prelude::*;
use crate::number::{parse_i32, i32_of_text};
use crate::text::{chars_of, string_of, slice_of};
use crate::token::{ParseInfo, TokenTypes, texts, param_texts};
use crate::tokenizer::{tokenize, tokens_ok};

verus! {

/// A syntax node.
#[derive(Debug)]
pub enum ASTNode {
    Int(i32),
    Float(String),
    Text(String),
    Char(char),
    Bool(bool),
    Operator(String),
    AssignmentOperator,
    LeftParenthesis,
    RightParenthesis,
    LeftCurly,
    RightCurly,
    LeftBracket,
    RightBracket,
    FatArrow,
    ArgumentSeparator,
    SemiColon,
    ReturnTypeAssignment,
    VariableCall(String),
    Variable(String),
    VarTypeAssignment(String),
    FunctionCall(String),
    FunctionArguments(String),
    ObjectCall(String),
    Dot { object: String, method: String },
    Function {
        name: String,
        return_type: String,
        params: Vec<(String, String, String)>,
        body: Vec<String>,
    },
    Collection { name: String, kind: String, single: String, pair: (String, String) },
    If(String),
    Elif(String),
    Else,
    While { condition: String, body: Vec<String> },
    For { variable: String, start: i32, end: i32, body: Vec<String> },
    Try(Vec<String>),
    Catch(Vec<String>),
    Finally(Vec<String>),
    Return(String),
    Not,
    Break,
    Continue,
    Comment,
    /// A token that stands for nothing, or a literal that could not be read.
    Empty,
}

/// The text inside the quotes of a string literal: the first character is
/// the opening quote, and the last one is dropped where it closes the
/// literal.
pub open spec fn unquoted(t: Seq<char>) -> Seq<char> {
    if t.len() >= 2 && t.last() == t[0] {
        t.subrange(1, t.len() - 1)
    } else if t.len() >= 1 {
        t.subrange(1, t.len() as int)
    } else {
        t
    }
}

/// Whether `n` is the node of the token `t`.
pub open spec fn node_ok(t: ParseInfo, n: ASTNode) -> bool {
    let v = t.value@;
    match t.token {
        TokenTypes::Int => match i32_of_text(v) {
            Some(i) => n == ASTNode::Int(i),
            None => n == ASTNode::Empty,
        },
        TokenTypes::Float => n matches ASTNode::Float(f) && f@ == v,
        TokenTypes::String => n matches ASTNode::Text(s) && s@ == unquoted(v),
        TokenTypes::Char => if v.len() >= 3 {
            n == ASTNode::Char(v[1])
        } else {
            n == ASTNode::Empty
        },
        TokenTypes::Bool => n == ASTNode::Bool(v == "True"@ || v == "true"@),
        TokenTypes::Operator => n matches ASTNode::Operator(o) && o@ == v,
        TokenTypes::AssignmentOperator => n == ASTNode::AssignmentOperator,
        TokenTypes::LeftParenthesis => n == ASTNode::LeftParenthesis,
        TokenTypes::RightParenthesis => n == ASTNode::RightParenthesis,
        TokenTypes::LeftCurly => n == ASTNode::LeftCurly,
        TokenTypes::RightCurly => n == ASTNode::RightCurly,
        TokenTypes::LeftBracket => n == ASTNode::LeftBracket,
        TokenTypes::RightBracket => n == ASTNode::RightBracket,
        TokenTypes::FatArrow => n == ASTNode::FatArrow,
        TokenTypes::ArgumentSeparator => n == ASTNode::ArgumentSeparator,
        TokenTypes::SemiColon => n == ASTNode::SemiColon,
        TokenTypes::ReturnTypeAssignment => n == ASTNode::ReturnTypeAssignment,
        TokenTypes::VariableCall => n matches ASTNode::VariableCall(x) && x@ == v,
        TokenTypes::Variable => n matches ASTNode::Variable(x) && x@ == v,
        TokenTypes::VarTypeAssignment => n matches ASTNode::VarTypeAssignment(x) && x@ == v,
        TokenTypes::FunctionCall => n matches ASTNode::FunctionCall(x) && x@ == v,
        TokenTypes::FunctionArguments => n matches ASTNode::FunctionArguments(x) && x@ == v,
        TokenTypes::ObjectCall { name } => n matches ASTNode::ObjectCall(x) && x@ == name@,
        TokenTypes::Dot { object, method } => n matches ASTNode::Dot { object: o, method: m }
            && o@ == object@ && m@ == method@,
        TokenTypes::Function { name, return_type, arguments, block } => n matches ASTNode::Function {
            name: a,
            return_type: b,
            params: c,
            body: d,
        } && a@ == name@ && b@ == return_type@ && param_texts(c@) == param_texts(arguments@)
            && texts(d@) == texts(block@),
        TokenTypes::Collection {
            name,
            collection_type,
            stored_value_type_single,
            stored_value_type_tuple,
        } => n matches ASTNode::Collection { name: a, kind: b, single: c, pair: d } && a@ == name@
            && b@ == collection_type@ && c@ == stored_value_type_single@ && d.0@
            == stored_value_type_tuple.0@ && d.1@ == stored_value_type_tuple.1@,
        TokenTypes::If { statement } => n matches ASTNode::If(x) && x@ == statement@,
        TokenTypes::Elif { statement } => n matches ASTNode::Elif(x) && x@ == statement@,
        TokenTypes::Else => n == ASTNode::Else,
        TokenTypes::While { statement, block } => n matches ASTNode::While { condition: c, body: b }
            && c@ == statement@ && texts(b@) == texts(block@),
        TokenTypes::For { variable, iterable, block } => n matches ASTNode::For {
            variable: x,
            start: a,
            end: b,
            body: c,
        } && x@ == variable@ && a == iterable.0 && b == iterable.1 && texts(c@) == texts(block@),
        TokenTypes::Try { block } => n matches ASTNode::Try(b) && texts(b@) == texts(block@),
        TokenTypes::Catch { block } => n matches ASTNode::Catch(b) && texts(b@) == texts(block@),
        TokenTypes::Finally { block } => n matches ASTNode::Finally(b) && texts(b@) == texts(block@),
        TokenTypes::ReturnStatement { value } => n matches ASTNode::Return(x) && x@ == value@,
        TokenTypes::Not => n == ASTNode::Not,
        TokenTypes::Break => n == ASTNode::Break,
        TokenTypes::Continue => n == ASTNode::Continue,
        TokenTypes::Comment => n == ASTNode::Comment,
        TokenTypes::FunctionCallArguments => n == ASTNode::Empty,
        TokenTypes::Assignment => n == ASTNode::Empty,
        TokenTypes::Unrecognized => n == ASTNode::Empty,
    }
}

/// The text of a string literal without its quotes.
fn unquote(v: &String) -> (r: String)
    ensures
        r@ == unquoted(v@),
{
    let t = chars_of(v.as_str());
    let n = t.len();
    if n >= 2 && t[n - 1] == t[0] {
        string_of(slice_of(t.as_slice(), 1, n - 1).as_slice())
    } else if n >= 1 {
        string_of(slice_of(t.as_slice(), 1, n).as_slice())
    } else {
        string_of(t.as_slice())
    }
}

/// The node of a token: literal text is parsed into a value (an integer
/// out of range, or an empty character literal, gives `Empty`), and the
/// fields of composite tokens are kept.
pub fn match_token_to_node(token: ParseInfo) -> (r: ASTNode)
    ensures
        node_ok(token, r),
{
    let ghost t = token;
    let ParseInfo { token: kind, chars_read: _, value } = token;
    match kind {
        TokenTypes::Int => {
            let v = chars_of(value.as_str());
            match parse_i32(v.as_slice()) {
                Some(i) => ASTNode::Int(i),
                None => ASTNode::Empty,
            }
        },
        TokenTypes::Float => ASTNode::Float(value),
        TokenTypes::String => ASTNode::Text(unquote(&value)),
        TokenTypes::Char => {
            let v = chars_of(value.as_str());
            if v.len() >= 3 {
                ASTNode::Char(v[1])
            } else {
                ASTNode::Empty
            }
        },
        TokenTypes::Bool => {
            let truth = value == String::from_str("True") || value == String::from_str("true");
            ASTNode::Bool(truth)
        },
        TokenTypes::Operator => ASTNode::Operator(value),
        TokenTypes::AssignmentOperator => ASTNode::AssignmentOperator,
        TokenTypes::LeftParenthesis => ASTNode::LeftParenthesis,
        TokenTypes::RightParenthesis => ASTNode::RightParenthesis,
        TokenTypes::LeftCurly => ASTNode::LeftCurly,
        TokenTypes::RightCurly => ASTNode::RightCurly,
        TokenTypes::LeftBracket => ASTNode::LeftBracket,
        TokenTypes::RightBracket => ASTNode::RightBracket,
        TokenTypes::FatArrow => ASTNode::FatArrow,
        TokenTypes::ArgumentSeparator => ASTNode::ArgumentSeparator,
        TokenTypes::SemiColon => ASTNode::SemiColon,
        TokenTypes::ReturnTypeAssignment => ASTNode::ReturnTypeAssignment,
        TokenTypes::VariableCall => ASTNode::VariableCall(value),
        TokenTypes::Variable => ASTNode::Variable(value),
        TokenTypes::VarTypeAssignment => ASTNode::VarTypeAssignment(value),
        TokenTypes::FunctionCall => ASTNode::FunctionCall(value),
        TokenTypes::FunctionArguments => ASTNode::FunctionArguments(value),
        TokenTypes::ObjectCall { name } => ASTNode::ObjectCall(name),
        TokenTypes::Dot { object, method } => ASTNode::Dot { object, method },
        TokenTypes::Function { name, return_type, arguments, block } => ASTNode::Function {
            name,
            return_type,
            params: arguments,
            body: block,
        },
        TokenTypes::Collection {
            name,
            collection_type,
            stored_value_type_single,
            stored_value_type_tuple,
        } => ASTNode::Collection {
            name,
            kind: collection_type,
            single: stored_value_type_single,
            pair: stored_value_type_tuple,
        },
        TokenTypes::If { statement } => ASTNode::If(statement),
        TokenTypes::Elif { statement } => ASTNode::Elif(statement),
        TokenTypes::Else => ASTNode::Else,
        TokenTypes::While { statement, block } => ASTNode::While { condition: statement, body: block },
        TokenTypes::For { variable, iterable, block } => ASTNode::For {
            variable,
            start: iterable.0,
            end: iterable.1,
            body: block,
        },
        TokenTypes::Try { block } => ASTNode::Try(block),
        TokenTypes::Catch { block } => ASTNode::Catch(block),
        TokenTypes::Finally { block } => ASTNode::Finally(block),
        TokenTypes::ReturnStatement { value: v } => ASTNode::Return(v),
        TokenTypes::Not => ASTNode::Not,
        TokenTypes::Break => ASTNode::Break,
        TokenTypes::Continue => ASTNode::Continue,
        TokenTypes::Comment => ASTNode::Comment,
        TokenTypes::FunctionCallArguments => ASTNode::Empty,
        TokenTypes::Assignment => ASTNode::Empty,
        TokenTypes::Unrecognized => ASTNode::Empty,
    }
}

/// Whether `nodes` are the nodes of the tokens `toks`, one for one.
pub open spec fn nodes_ok(toks: Seq<ParseInfo>, nodes: Seq<ASTNode>) -> bool {
    toks.len() == nodes.len() && forall|k: int| 0 <= k < toks.len() ==> node_ok(#[trigger] toks[k], nodes[k])
}

/// Whether `nodes` are the nodes of the tokens of the statement `s`.
pub open spec fn is_ast_of(s: Seq<char>, nodes: Seq<ASTNode>) -> bool {
    exists|toks: Seq<ParseInfo>| tokens_ok(s, 0, toks) && nodes_ok(toks, nodes)
}

/// Whether the text `s` holds only white space.
pub open spec fn blank(s: Seq<char>) -> bool {
    forall|k: int| 0 <= k < s.len() ==> crate::text::is_ws(#[trigger] s[k])
}

proof fn lemma_blank_tokens(s: Seq<char>, i: int, toks: Seq<ParseInfo>)
    requires
        0 <= i,
        blank(s),
        tokens_ok(s, i, toks),
    ensures
        toks.len() == 0,
    decreases s.len() - i,
{
    if i < s.len() {
        lemma_blank_tokens(s, i + 1, toks);
    }
}

/// A blank statement has no nodes.
pub proof fn lemma_blank_nodes(s: Seq<char>, nodes: Seq<ASTNode>)
    requires
        blank(s),
        is_ast_of(s, nodes),
    ensures
        nodes.len() == 0,
{
    let toks = choose|toks: Seq<ParseInfo>| tokens_ok(s, 0, toks) && nodes_ok(toks, nodes);
    lemma_blank_tokens(s, 0, toks);
}

/// Tokenizes the statement `block` and turns each token into its node.
pub fn string_to_ast(block: String) -> (r: Vec<ASTNode>)
    ensures
        is_ast_of(block@, r@),
{
    let ghost text = block@;
    let tokens = tokenize(block);
    let ghost toks = tokens@;
    let mut nodes: Vec<ASTNode> = Vec::new();
    let mut tokens = tokens;
    while tokens.len() > 0
        invariant
            tokens@.len() + nodes@.len() == toks.len(),
            forall|k: int| 0 <= k < tokens@.len() ==> tokens@[k] == toks[nodes@.len() + k],
            forall|k: int| 0 <= k < nodes@.len() ==> node_ok(#[trigger] toks[k], nodes@[k]),
        decreases tokens@.len(),
    {
        let t = tokens.remove(0);
        nodes.push(match_token_to_node(t));
    }
    assert(nodes_ok(toks, nodes@));
    nodes
}

} // verus!
