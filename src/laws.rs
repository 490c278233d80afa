//! Properties that hold across the library's functions.

use vstd::prelude::*;
use crate::store::{VariableView, declare_in, last_variable, lemma_last_variable};
use crate::declaration::{Declared, declaration_at, declaration_ok};
use crate::keyword::{function_at, function_ok, loop_at, loop_ok};
use crate::scan::for_header;
use crate::token::{ParseInfo, TokenTypes, debug_list, display, texts};

verus! {

/// Number of variables named `name`.
pub open spec fn named_count(vars: Seq<VariableView>, name: Seq<char>) -> nat
    decreases vars.len(),
{
    if vars.len() == 0 {
        0
    } else {
        named_count(vars.drop_last(), name) + if vars.last().name == name { 1nat } else { 0nat }
    }
}

proof fn lemma_count_update(vars: Seq<VariableView>, k: int, v: VariableView)
    requires
        0 <= k < vars.len(),
        vars[k].name == v.name,
    ensures
        named_count(vars.update(k, v), v.name) == named_count(vars, v.name),
    decreases vars.len(),
{
    let u = vars.update(k, v);
    if k == vars.len() - 1 {
        assert(u.drop_last() =~= vars.drop_last());
    } else {
        assert(u.drop_last() =~= vars.drop_last().update(k, v));
        lemma_count_update(vars.drop_last(), k, v);
    }
}

proof fn lemma_count_zero(vars: Seq<VariableView>, name: Seq<char>)
    requires
        last_variable(vars, name) == -1,
    ensures
        named_count(vars, name) == 0,
    decreases vars.len(),
{
    if vars.len() > 0 {
        lemma_count_zero(vars.drop_last(), name);
    }
}

proof fn lemma_count_positive(vars: Seq<VariableView>, name: Seq<char>)
    requires
        last_variable(vars, name) >= 0,
    ensures
        named_count(vars, name) >= 1,
    decreases vars.len(),
{
    if vars.len() > 0 && vars.last().name != name {
        lemma_count_positive(vars.drop_last(), name);
    }
}

/// Declaring a variable leaves exactly one variable of its name where
/// there was at most one before, and the last variable of that name is the
/// declared one: its name, its type and its value.
pub proof fn lemma_declaration_leaves_one_entry(vars: Seq<VariableView>, v: VariableView)
    ensures
        named_count(declare_in(vars, v), v.name) == if named_count(vars, v.name) == 0 {
            1
        } else {
            named_count(vars, v.name)
        },
        named_count(vars, v.name) <= 1 ==> named_count(declare_in(vars, v), v.name) == 1,
        declare_in(vars, v)[last_variable(declare_in(vars, v), v.name)] == v,
{
    lemma_last_variable(vars, v.name);
    let k = last_variable(vars, v.name);
    let after = declare_in(vars, v);
    if k >= 0 {
        lemma_count_update(vars, k, v);
        lemma_count_positive(vars, v.name);
        assert(last_variable(after, v.name) == k) by {
            lemma_last_variable(after, v.name);
            let j = last_variable(after, v.name);
            if j != k {
                if j < k {
                    assert(after[k].name == v.name);
                } else {
                    assert(after[j] == vars[j]);
                }
            }
        }
    } else {
        lemma_count_zero(vars, v.name);
        assert(after.drop_last() =~= vars);
    }
}

/// Rendering a collection, function, `while` or `for` token shows the
/// fields it was made from: the name (or condition, or loop variable) stands
/// right after the fixed prefix of its kind, and the statements of a body
/// close the text.
pub proof fn lemma_display_round_trip(t: TokenTypes)
    ensures
        t matches TokenTypes::Collection { name, collection_type, .. } ==> {
            let d = display(t);
            let p: int = "Collection: "@.len() as int;
            d.subrange(0, p) == "Collection: "@ && d.subrange(p, p + name@.len() as int) == name@
                && d.subrange(p + name@.len() as int + 1, p + name@.len() as int + 1 + collection_type@.len() as int)
                == collection_type@
        },
        t matches TokenTypes::Function { name, block, .. } ==> {
            let d = display(t);
            let p: int = "Function: "@.len() as int;
            let b = debug_list(texts(block@));
            d.subrange(0, p) == "Function: "@ && d.subrange(p, p + name@.len() as int) == name@
                && d.subrange(d.len() - b.len() as int, d.len() as int) == b
        },
        t matches TokenTypes::While { statement, block } ==> {
            let d = display(t);
            let p: int = "While: "@.len() as int;
            let b = debug_list(texts(block@));
            d.subrange(0, p) == "While: "@ && d.subrange(p, p + statement@.len() as int) == statement@
                && d.subrange(d.len() - b.len() as int, d.len() as int) == b
        },
        t matches TokenTypes::For { variable, block, .. } ==> {
            let d = display(t);
            let p: int = "For: Var: "@.len() as int;
            let b = debug_list(texts(block@));
            d.subrange(0, p) == "For: Var: "@ && d.subrange(p, p + variable@.len() as int) == variable@
                && d.subrange(d.len() - b.len() as int, d.len() as int) == b
        },
{
    match t {
        TokenTypes::Collection { name, collection_type, stored_value_type_single, stored_value_type_tuple } => {
            reveal_strlit(" ");
            let d = display(t);
            let p: int = "Collection: "@.len() as int;
            assert(d.subrange(0, p) =~= "Collection: "@);
            assert(d.subrange(p, p + name@.len() as int) =~= name@);
            assert(d.subrange(p + name@.len() as int + 1, p + name@.len() as int + 1 + collection_type@.len() as int)
                =~= collection_type@);
        },
        TokenTypes::Function { name, return_type, arguments, block } => {
            let d = display(t);
            let p: int = "Function: "@.len() as int;
            let b = debug_list(texts(block@));
            assert(d.subrange(0, p) =~= "Function: "@);
            assert(d.subrange(p, p + name@.len() as int) =~= name@);
            assert(d.subrange(d.len() - b.len() as int, d.len() as int) =~= b);
        },
        TokenTypes::While { statement, block } => {
            let d = display(t);
            let p: int = "While: "@.len() as int;
            let b = debug_list(texts(block@));
            assert(d.subrange(0, p) =~= "While: "@);
            assert(d.subrange(p, p + statement@.len() as int) =~= statement@);
            assert(d.subrange(d.len() - b.len() as int, d.len() as int) =~= b);
        },
        TokenTypes::For { variable, iterable, block } => {
            let d = display(t);
            let p: int = "For: Var: "@.len() as int;
            let b = debug_list(texts(block@));
            assert(d.subrange(0, p) =~= "For: Var: "@);
            assert(d.subrange(p, p + variable@.len() as int) =~= variable@);
            assert(d.subrange(d.len() - b.len() as int, d.len() as int) =~= b);
        },
        _ => {},
    }
}

/// A `for` or `while` statement, tokenized and rendered, shows the loop
/// variable (or the condition) read from its header and the statements of
/// its body.
pub proof fn lemma_loop_token_round_trip(s: Seq<char>, i: int, t: ParseInfo)
    requires
        loop_at(s, i) is Some,
        loop_ok(s, i, t),
    ensures
        ({
            let (is_for, header, body, _end) = loop_at(s, i)->0;
            let d = display(t.token);
            let b = debug_list(body);
            let (p, field) = if is_for {
                ("For: Var: "@, for_header(header).0)
            } else {
                ("While: "@, header)
            };
            d.subrange(0, p.len() as int) == p && d.subrange(p.len() as int, (p.len() + field.len()) as int) == field
                && d.subrange(d.len() - b.len() as int, d.len() as int) == b
        }),
{
    lemma_display_round_trip(t.token);
}

/// A function declaration, tokenized and rendered, shows the function's
/// name and the statements of its body.
pub proof fn lemma_function_token_round_trip(s: Seq<char>, i: int, t: ParseInfo)
    requires
        function_at(s, i) is Some,
        function_ok(s, i, t),
    ensures
        ({
            let (name, _params, _ret, body, _end) = function_at(s, i)->0;
            let d = display(t.token);
            let b = debug_list(body);
            let p = "Function: "@;
            d.subrange(0, p.len() as int) == p && d.subrange(p.len() as int, (p.len() + name.len()) as int) == name
                && d.subrange(d.len() - b.len() as int, d.len() as int) == b
        }),
{
    lemma_display_round_trip(t.token);
}

/// A collection declaration, tokenized and rendered, shows the
/// collection's name and kind as the declaration wrote them.
pub proof fn lemma_collection_token_round_trip(s: Seq<char>, i: int, toks: Seq<ParseInfo>)
    requires
        declaration_at(s, i) matches Some(Declared::Collection { .. }),
        declaration_ok(s, i, toks),
    ensures
        ({
            let d = display(toks[0].token);
            let p = "Collection: "@;
            match declaration_at(s, i)->0 {
                Declared::Collection { name, kind, .. } => d.subrange(0, p.len() as int) == p && d.subrange(
                    p.len() as int,
                    (p.len() + name.len()) as int,
                ) == name && d.subrange((p.len() + name.len() + 1) as int, (p.len() + name.len() + 1 + kind.len()) as int)
                    == kind,
                _ => true,
            }
        }),
{
    lemma_display_round_trip(toks[0].token);
}

} // verus!
