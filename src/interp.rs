//! The statement router and the statement compilers: variables, functions
//! and calls, conditionals, loops and exception-like blocks. Bodies are kept
//! as text and tokenized again each time they run.

use vstd::prelude::*;
use crate::builtin::{concat, is_builtin, is_builtin_name, lower_of, to_lowercase, to_uppercase, trim, upper_of};
use crate::collection::{CollectionError, literal_of, literal_value, parse_collection_declaration};
use crate::node::{ASTNode, is_ast_of, string_to_ast};
use crate::operator::{CompileError, ErrorKind, apply_binary, error_of, kind_of, promoted};
use crate::store::{Array, Dictionary, FunctionView, Runtime, RuntimeView, last_variable, UserFunction, Variable, VariableView, declare_in, first_function};
use crate::text::trim_seq;
use crate::value::{Value, ValueType, ValueView, coerce, coerced, type_named, type_of_name};

verus! {

/// How deeply statements may nest: bodies of functions, loops and blocks.
pub const MAX_DEPTH: u32 = 64;

/// How many passes one loop may make.
pub const MAX_ITERATIONS: u32 = 1000000;

/// The native functions of the host: decimal arithmetic and the built-ins
/// that need it, and those that do input and output. `None` means that the
/// call failed.
pub trait Natives {
    fn call_native(&mut self, name: &str, args: &Vec<Value>) -> Option<Value>;
}

/// A host without native functions: every native call fails.
pub struct NoNatives;

impl Natives for NoNatives {
    fn call_native(&mut self, name: &str, args: &Vec<Value>) -> Option<Value> {
        None
    }
}

fn clone_lines(v: &Vec<String>) -> (r: Vec<String>)
    ensures
        r@ == v@,
{
    let mut out: Vec<String> = Vec::new();
    let mut i: usize = 0;
    while i < v.len()
        invariant
            i <= v@.len(),
            out@ == v@.subrange(0, i as int),
        decreases v@.len() - i,
    {
        out.push(v[i].clone());
        assert(v@.subrange(0, i + 1) =~= v@.subrange(0, i as int).push(v@[i as int]));
        i += 1;
    }
    assert(v@.subrange(0, i as int) =~= v@);
    out
}

fn clone_params(v: &Vec<(String, String, String)>) -> (r: Vec<(String, String, String)>)
    ensures
        r@ == v@,
{
    let mut out: Vec<(String, String, String)> = Vec::new();
    let mut i: usize = 0;
    while i < v.len()
        invariant
            i <= v@.len(),
            out@ == v@.subrange(0, i as int),
        decreases v@.len() - i,
    {
        let p = (v[i].0.clone(), v[i].1.clone(), v[i].2.clone());
        out.push(p);
        assert(v@.subrange(0, i + 1) =~= v@.subrange(0, i as int).push(v@[i as int]));
        i += 1;
    }
    assert(v@.subrange(0, i as int) =~= v@);
    out
}

/// The argument at position `k` once promoted: the first two integers
/// become decimals.
pub open spec fn promote_at(v: ValueView, k: int) -> ValueView {
    match v {
        ValueView::Int(i) => if k < 2 {
            ValueView::Float(crate::number::int_text(i as int))
        } else {
            v
        },
        _ => v,
    }
}

/// Promotes the first two arguments from integers to decimals, as the
/// numeric built-ins take decimals.
pub fn adjust_parameter_types(parameter_and_value: &mut Vec<Value>)
    ensures
        final(parameter_and_value)@.len() == old(parameter_and_value)@.len(),
        forall|k: int| 0 <= k < old(parameter_and_value)@.len() ==> final(parameter_and_value)@[k]@
            == promote_at(#[trigger] old(parameter_and_value)@[k]@, k),
{
    let n = parameter_and_value.len();
    let mut i: usize = 0;
    while i < n && i < 2
        invariant
            i <= n,
            i <= 2,
            n == parameter_and_value@.len(),
            n == old(parameter_and_value)@.len(),
            forall|k: int| 0 <= k < i ==> parameter_and_value@[k]@ == promote_at(
                #[trigger] old(parameter_and_value)@[k]@,
                k,
            ),
            forall|k: int| i <= k < n ==> parameter_and_value@[k] == #[trigger] old(parameter_and_value)@[k],
        decreases 2 - i,
    {
        let p = promoted(&parameter_and_value[i]);
        parameter_and_value.set(i, p);
        i += 1;
    }
    assert forall|k: int| 0 <= k < n implies parameter_and_value@[k]@ == promote_at(
        #[trigger] old(parameter_and_value)@[k]@,
        k,
    ) by {
        if k >= i {
            assert(k >= 2);
        }
    }
}

/// The result of the built-in `name` on `args`, as the library computes
/// it for `concat`, `to_uppercase`, `to_lowercase` and `trim`.
pub open spec fn text_builtin(name: Seq<char>, args: Seq<ValueView>) -> Option<Option<ValueView>> {
    if name == "concat"@ {
        Some(if args.len() == 2 && args[0] is Text && args[1] is Text {
            Some(ValueView::Text(args[0]->Text_0 + args[1]->Text_0))
        } else {
            None
        })
    } else if name == "to_uppercase"@ || name == "to_lowercase"@ || name == "trim"@ {
        Some(if args.len() == 1 && args[0] is Text {
            let t = args[0]->Text_0;
            Some(ValueView::Text(
                if name == "to_uppercase"@ {
                    upper_of(t)
                } else if name == "to_lowercase"@ {
                    lower_of(t)
                } else {
                    trim_seq(t)
                },
            ))
        } else {
            None
        })
    } else {
        None
    }
}

/// Calls the built-in `name`: the text built-ins are computed here from the
/// arguments as given; the others go to the host's native functions, with
/// their first two integer arguments promoted to decimals.
pub fn call_standard_function<H: Natives>(h: &mut H, name: &str, args: Vec<Value>) -> (r: Result<Value, CompileError>)
    ensures
        text_builtin(name@, crate::store::values_view(args@)) matches Some(Some(v)) ==> (r matches Ok(x)
            && x@ == v),
        text_builtin(name@, crate::store::values_view(args@)) matches Some(None) ==> (r matches Err(e)
            && kind_of(e) == ErrorKind::Type),
{
    proof {
        reveal_strlit("concat");
        reveal_strlit("to_uppercase");
        reveal_strlit("to_lowercase");
        reveal_strlit("trim");
    }
    let n = String::from_str(name);
    let is_concat = n == String::from_str("concat");
    let is_upper = n == String::from_str("to_uppercase");
    let is_lower = n == String::from_str("to_lowercase");
    let is_trim = n == String::from_str("trim");
    if is_concat {
        if args.len() == 2 {
            match (&args[0], &args[1]) {
                (Value::Text(a), Value::Text(b)) => {
                    return Ok(Value::Text(concat(a.clone(), b.clone())));
                },
                _ => {},
            }
        }
        return Err(error_of(1, "concat takes two strings"));
    }
    if is_upper || is_lower || is_trim {
        if args.len() == 1 {
            match &args[0] {
                Value::Text(a) => {
                    let t = a.clone();
                    let out = if is_upper {
                        to_uppercase(t)
                    } else if is_lower {
                        to_lowercase(t)
                    } else {
                        trim(t)
                    };
                    return Ok(Value::Text(out));
                },
                _ => {},
            }
        }
        return Err(error_of(1, "a text built-in takes one string"));
    }
    let mut args = args;
    adjust_parameter_types(&mut args);
    match h.call_native(name, &args) {
        Some(v) => Ok(v),
        None => Err(error_of(1, "the native function failed")),
    }
}

/// The variables after declaring `name` of type `declared_type` with `value`,
/// or `None` where the type is unknown or the value cannot take it.
pub open spec fn declared_variables(
    vars: Seq<VariableView>,
    name: Seq<char>,
    declared_type: Seq<char>,
    value: ValueView,
) -> Option<Seq<VariableView>> {
    match type_named(declared_type) {
        Some(t) => match coerced(value, t) {
            Some(v) => Some(declare_in(vars, VariableView { name, var_type: t, value: v })),
            None => None,
        },
        None => None,
    }
}

/// Declares the variable `name` of type `declared_type` with `value`, which is
/// converted to that type. The new variable takes the place of the last
/// one of that name, or is added; an unknown type, or a value that cannot
/// take it, is an error and changes nothing.
pub fn declare_variable(rt: &mut Runtime, name: &String, declared_type: &String, value: Value) -> (r: Result<(), CompileError>)
    ensures
        match declared_variables(old(rt)@.variables, name@, declared_type@, value@) {
            Some(vars) => r is Ok && final(rt)@.variables == vars,
            None => (r matches Err(e) && kind_of(e) == ErrorKind::Type && final(rt)@.variables == old(rt)@.variables),
        },
        final(rt)@.arrays == old(rt)@.arrays,
        final(rt)@.dictionaries == old(rt)@.dictionaries,
        final(rt)@.functions == old(rt)@.functions,
{
    match type_of_name(declared_type.as_str()) {
        Some(t) => match coerce(value, t) {
            Some(v) => {
                let var = Variable { name: name.clone(), var_type: t, value: v };
                rt.declare_variable(var);
                Ok(())
            },
            None => Err(error_of(1, "the value does not fit the declared type")),
        },
        None => Err(error_of(1, "unknown variable type")),
    }
}

/// Whether `d` is the default value of the parameter `param`: the text of
/// its default, tokenized, parsed by the declared type (`Null` where the
/// type is unknown or the text gives no value of it).
pub open spec fn default_ok(param: (Seq<char>, Seq<char>, Seq<char>), d: ValueView) -> bool {
    exists|nodes: Seq<ASTNode>| #[trigger] is_ast_of(param.2, nodes) && d == match type_named(param.1) {
        Some(t) => default_of(nodes, t),
        None => ValueView::Null,
    }
}

/// Whether `ds` are the default values of the parameters `params`.
pub open spec fn defaults_ok(params: Seq<(Seq<char>, Seq<char>, Seq<char>)>, ds: Seq<ValueView>) -> bool {
    ds.len() == params.len() && forall|k: int| 0 <= k < params.len() ==> default_ok(params[k], #[trigger] ds[k])
}

/// The default value of each parameter, parsed by its declared type.
fn parse_defaults(params: &Vec<(String, String, String)>) -> (r: Vec<Value>)
    ensures
        defaults_ok(crate::token::param_texts(params@), crate::store::values_view(r@)),
{
    let mut out: Vec<Value> = Vec::new();
    let mut k: usize = 0;
    let ghost ps = crate::token::param_texts(params@);
    while k < params.len()
        invariant
            k <= params@.len(),
            ps == crate::token::param_texts(params@),
            out@.len() == k,
            forall|j: int| 0 <= j < k ==> default_ok(ps[j], #[trigger] crate::store::values_view(out@)[j]),
        decreases params@.len() - k,
    {
        assert(ps[k as int] == (params@[k as int].0@, params@[k as int].1@, params@[k as int].2@));
        let v = match type_of_name(params[k].1.as_str()) {
            Some(t) => {
                let d = default_value(&params[k].2, t);
                proof {
                    let nodes = choose|nodes: Seq<ASTNode>| #[trigger] is_ast_of(params@[k as int].2@, nodes) && d@ == default_of(nodes, t);
                    assert(is_ast_of(ps[k as int].2, nodes));
                    assert(default_ok(ps[k as int], d@));
                }
                d
            },
            None => {
                let n = string_to_ast(params[k].2.clone());
                assert(is_ast_of(ps[k as int].2, n@));
                assert(default_ok(ps[k as int], ValueView::Null));
                Value::Null
            },
        };
        let ghost before = out@;
        out.push(v);
        proof {
            assert(ps[k as int] == (params@[k as int].0@, params@[k as int].1@, params@[k as int].2@));
            assert forall|j: int| 0 <= j < k + 1 implies default_ok(ps[j], #[trigger] crate::store::values_view(out@)[j]) by {
                if j < k {
                    assert(crate::store::values_view(out@)[j] == crate::store::values_view(before)[j]);
                }
            }
        }
        k += 1;
    }
    out
}

/// Records a function declaration: the first node is the function, with
/// its name, return type, parameters and body; the default value of each
/// parameter is parsed by its type now.
pub fn parse_function_declaration(rt: &mut Runtime, expression: &[ASTNode]) -> (r: Result<bool, CompileError>)
    ensures
        expression@.len() > 0 && expression@[0] is Function ==> r == Ok::<bool, CompileError>(true)
            && final(rt)@.functions.len() == old(rt)@.functions.len() + 1,
        expression@.len() > 0 ==> (expression@[0] matches ASTNode::Function { name, return_type, params, body }
            ==> final(rt)@.functions == old(rt)@.functions.push(
            crate::store::FunctionView {
                name: name@,
                return_type: return_type@,
                params: crate::token::param_texts(params@),
                defaults: final(rt)@.functions.last().defaults,
                body: crate::token::texts(body@),
            },
        ) && defaults_ok(crate::token::param_texts(params@), final(rt)@.functions.last().defaults)
            && final(rt)@.arrays == old(rt)@.arrays && final(rt)@.dictionaries == old(rt)@.dictionaries),
        !(expression@.len() > 0 && expression@[0] is Function) ==> (r matches Err(e) && kind_of(e)
            == ErrorKind::Syntax && final(rt)@ == old(rt)@),
        final(rt)@.variables == old(rt)@.variables,
{
    if expression.len() == 0 {
        return Err(error_of(0, "a function declaration must start with a function"));
    }
    match &expression[0] {
        ASTNode::Function { name, return_type, params, body } => {
            let f = UserFunction {
                name: name.clone(),
                return_type: return_type.clone(),
                params: clone_params(params),
                defaults: parse_defaults(params),
                body: clone_lines(body),
            };
            rt.functions.push(f);
            assert(rt@.functions =~= old(rt)@.functions.push(f@));
            Ok(true)
        },
        _ => Err(error_of(0, "a function declaration must start with a function")),
    }
}

/// Position of the first `)` from `j` on, or the number of nodes.
pub open spec fn first_close(nodes: Seq<ASTNode>, j: int) -> int
    decreases nodes.len() - j,
{
    if j < 0 || j >= nodes.len() {
        nodes.len() as int
    } else if nodes[j] is RightParenthesis {
        j
    } else {
        first_close(nodes, j + 1)
    }
}

/// Where the arguments of a call that starts at `from` end: the first `)`
/// from there on, or the end of the nodes.
fn close_of(nodes: &[ASTNode], from: usize) -> (r: usize)
    ensures
        from <= nodes@.len() ==> from <= r <= nodes@.len() && r as int == first_close(nodes@, from as int),
        from > nodes@.len() ==> r == from,
{
    let mut j = from;
    while j < nodes.len()
        invariant
            from <= j,
            from <= nodes@.len() ==> j <= nodes@.len() && first_close(nodes@, j as int) == first_close(nodes@, from as int),
            from > nodes@.len() ==> j == from,
        decreases nodes@.len() - j,
    {
        match &nodes[j] {
            ASTNode::RightParenthesis => {
                return j;
            },
            _ => {},
        }
        j += 1;
    }
    j
}

/// The values of the arguments of a call from node `k` up to node `to`:
/// literals and the values of variables; commas and parentheses are passed
/// over. An unknown variable is a lookup failure, any other node a type
/// error.
pub open spec fn arguments_from(vars: Seq<VariableView>, nodes: Seq<ASTNode>, k: int, to: int) -> Result<Seq<ValueView>, ErrorKind>
    decreases to - k,
{
    if k >= to || k < 0 || k >= nodes.len() {
        Ok(Seq::empty())
    } else {
        let here: Result<Option<ValueView>, ErrorKind> = if literal_value(nodes[k]) is Some {
            Ok(literal_value(nodes[k]))
        } else {
            match nodes[k] {
                ASTNode::VariableCall(name) => match value_named(vars, name@) {
                    Some(v) => Ok(Some(v)),
                    None => Err(ErrorKind::Lookup),
                },
                ASTNode::ArgumentSeparator | ASTNode::LeftParenthesis | ASTNode::RightParenthesis => Ok(None),
                _ => Err(ErrorKind::Type),
            }
        };
        match here {
            Err(e) => Err(e),
            Ok(h) => match arguments_from(vars, nodes, k + 1, to) {
                Ok(rest) => Ok(match h {
                    Some(v) => seq![v] + rest,
                    None => rest,
                }),
                Err(e) => Err(e),
            },
        }
    }
}

/// The values of the arguments between positions `from` and `to`: literals
/// and variables, separated by commas.
fn call_arguments(rt: &Runtime, nodes: &[ASTNode], from: usize, to: usize) -> (r: Result<Vec<Value>, CompileError>)
    requires
        from <= to <= nodes@.len(),
    ensures
        match arguments_from(rt@.variables, nodes@, from as int, to as int) {
            Ok(vs) => (r matches Ok(v) && crate::store::values_view(v@) == vs),
            Err(k) => (r matches Err(e) && kind_of(e) == k),
        },
{
    let mut out: Vec<Value> = Vec::new();
    let mut k = from;
    let ghost all = arguments_from(rt@.variables, nodes@, from as int, to as int);
    while k < to
        invariant
            from <= k <= to,
            to <= nodes@.len(),
            all == arguments_from(rt@.variables, nodes@, from as int, to as int),
            all == match arguments_from(rt@.variables, nodes@, k as int, to as int) {
                Ok(rest) => Ok(crate::store::values_view(out@) + rest),
                Err(e) => Err(e),
            },
        decreases to - k,
    {
        let ghost before = crate::store::values_view(out@);
        match literal_of(&nodes[k]) {
            Some(v) => {
                out.push(v);
                proof {
                    assert(crate::store::values_view(out@) =~= before.push(v@));
                    match arguments_from(rt@.variables, nodes@, k + 1, to as int) {
                        Ok(rest) => {
                            assert(before + (seq![v@] + rest) =~= crate::store::values_view(out@) + rest);
                        },
                        Err(_) => {},
                    }
                }
            },
            None => match &nodes[k] {
                ASTNode::VariableCall(name) => match rt.find_variable(name.as_str()) {
                    Some(i) => {
                        proof {
                            crate::store::lemma_last_variable(rt@.variables, name@);
                        }
                        let v = rt.variables[i].value.duplicate();
                        assert(value_named(rt@.variables, name@) == Some(v@));
                        out.push(v);
                        proof {
                            assert(crate::store::values_view(out@) =~= before.push(v@));
                            match arguments_from(rt@.variables, nodes@, k + 1, to as int) {
                                Ok(rest) => {
                                    assert(before + (seq![v@] + rest) =~= crate::store::values_view(out@) + rest);
                                },
                                Err(_) => {},
                            }
                        }
                    },
                    None => {
                        return Err(error_of(2, "unknown variable"));
                    },
                },
                ASTNode::ArgumentSeparator | ASTNode::LeftParenthesis | ASTNode::RightParenthesis => {},
                _ => {
                    return Err(error_of(1, "unexpected node in the arguments"));
                },
            },
        }
        k += 1;
    }
    assert(crate::store::values_view(out@) + Seq::<ValueView>::empty() =~= crate::store::values_view(out@));
    Ok(out)
}

/// Whether two values are equal.
fn same_value(a: &Value, b: &Value) -> (r: bool)
    ensures
        r == (a@ == b@),
{
    match (a, b) {
        (Value::Int(x), Value::Int(y)) => *x == *y,
        (Value::Float(x), Value::Float(y)) => *x == *y,
        (Value::Text(x), Value::Text(y)) => *x == *y,
        (Value::Char(x), Value::Char(y)) => *x == *y,
        (Value::Bool(x), Value::Bool(y)) => *x == *y,
        (Value::Null, Value::Null) => true,
        _ => false,
    }
}

/// What an array method gives: the result, and the array's values after
/// it. `push(v)` adds `v` and gives `Null`; `pop()` takes the last value
/// (`Null` when there is none); `len()` gives the length; `get(i)` gives
/// the value at `i`. A bad index is a lookup failure, a non-integer index a
/// type error, any other method a lookup failure.
pub open spec fn array_method(values: Seq<ValueView>, m: Seq<char>, args: Seq<ValueView>) -> Result<(ValueView, Seq<ValueView>), ErrorKind> {
    if m == "push"@ && args.len() == 1 {
        Ok((ValueView::Null, values.push(args[0])))
    } else if m == "pop"@ && args.len() == 0 {
        if values.len() == 0 {
            Ok((ValueView::Null, values))
        } else {
            Ok((values.last(), values.drop_last()))
        }
    } else if m == "len"@ && args.len() == 0 {
        if values.len() <= i32::MAX {
            Ok((ValueView::Int(values.len() as i32), values))
        } else {
            Err(ErrorKind::Arithmetic)
        }
    } else if m == "get"@ && args.len() == 1 {
        match args[0] {
            ValueView::Int(i) => if 0 <= i < values.len() {
                Ok((values[i as int], values))
            } else {
                Err(ErrorKind::Lookup)
            },
            _ => Err(ErrorKind::Type),
        }
    } else {
        Err(ErrorKind::Lookup)
    }
}

/// Runs the method `m` on the array at position `k`, as `array_method`
/// says; no other array and no other store changes.
fn call_array_method(rt: &mut Runtime, k: usize, m: &String, args: &Vec<Value>) -> (r: Result<Value, CompileError>)
    requires
        k < old(rt)@.arrays.len(),
    ensures
        match array_method(old(rt)@.arrays[k as int].values, m@, crate::store::values_view(args@)) {
            Ok((v, vals)) => (r matches Ok(x) && x@ == v && final(rt)@.arrays == old(rt)@.arrays.update(
                k as int,
                crate::store::ArrayView { values: vals, ..old(rt)@.arrays[k as int] },
            )),
            Err(e) => (r matches Err(x) && kind_of(x) == e && final(rt)@ == old(rt)@),
        },
        final(rt)@.variables == old(rt)@.variables,
        final(rt)@.dictionaries == old(rt)@.dictionaries,
        final(rt)@.functions == old(rt)@.functions,
{
    proof {
        reveal_strlit("push");
        reveal_strlit("pop");
        reveal_strlit("len");
        reveal_strlit("get");
    }
    let ghost av = crate::store::values_view(args@);
    assert(args@.len() == av.len());
    assert(args@.len() > 0 ==> av[0] == args@[0]@);
    let is_push = *m == String::from_str("push");
    let is_pop = *m == String::from_str("pop");
    let is_len = *m == String::from_str("len");
    let is_get = *m == String::from_str("get");
    if is_push && args.len() == 1 {
        let mut arrays: Vec<Array> = Vec::new();
        std::mem::swap(&mut arrays, &mut rt.arrays);
        let mut a = arrays.remove(k);
        let ghost old_a = a@;
        a.values.push(args[0].duplicate());
        assert(a@.values =~= old_a.values.push(av[0]));
        arrays.insert(k, a);
        rt.arrays = arrays;
        assert(rt@.arrays =~= old(rt)@.arrays.update(k as int, crate::store::ArrayView { values: a@.values, ..old(rt)@.arrays[k as int] }));
        return Ok(Value::Null);
    }
    if is_pop && args.len() == 0 {
        let mut arrays: Vec<Array> = Vec::new();
        std::mem::swap(&mut arrays, &mut rt.arrays);
        let mut a = arrays.remove(k);
        let ghost old_a = a@;
        let result = match a.values.pop() {
            Some(x) => {
                assert(a@.values =~= old_a.values.drop_last());
                x
            },
            None => Value::Null,
        };
        arrays.insert(k, a);
        rt.arrays = arrays;
        assert(rt@.arrays =~= old(rt)@.arrays.update(k as int, crate::store::ArrayView { values: a@.values, ..old(rt)@.arrays[k as int] }));
        return Ok(result);
    }
    if is_len && args.len() == 0 {
        let n = rt.arrays[k].values.len();
        if n > 2147483647 {
            return Err(error_of(4, "length out of range"));
        }
        assert(old(rt)@.arrays.update(k as int, crate::store::ArrayView { values: old(rt)@.arrays[k as int].values, ..old(rt)@.arrays[k as int] }) =~= old(rt)@.arrays);
        return Ok(Value::Int(n as i32));
    }
    if is_get && args.len() == 1 {
        match &args[0] {
            Value::Int(i) => {
                if *i >= 0 && (*i as usize) < rt.arrays[k].values.len() {
                    assert(old(rt)@.arrays.update(k as int, crate::store::ArrayView { values: old(rt)@.arrays[k as int].values, ..old(rt)@.arrays[k as int] }) =~= old(rt)@.arrays);
                    return Ok(rt.arrays[k].values[*i as usize].duplicate());
                }
                return Err(error_of(2, "index out of range"));
            },
            _ => {
                return Err(error_of(1, "an index is an integer"));
            },
        }
    }
    Err(error_of(2, "unknown array method"))
}

/// Position of the first pair of `pairs` from `j` on whose key is `key`, or
/// the number of pairs.
pub open spec fn first_key(pairs: Seq<(ValueView, ValueView)>, key: ValueView, j: int) -> int
    decreases pairs.len() - j,
{
    if j < 0 || j >= pairs.len() {
        pairs.len() as int
    } else if pairs[j].0 == key {
        j
    } else {
        first_key(pairs, key, j + 1)
    }
}

/// What a dictionary method gives: the result, and the dictionary's pairs
/// after it. `insert(k, v)` adds the pair and gives `Null`; `len()` gives
/// the number of pairs; `get(k)` gives the value of the first pair with key
/// `k`, a lookup failure where there is none. Any other method is a lookup
/// failure.
pub open spec fn dict_method(
    pairs: Seq<(ValueView, ValueView)>,
    m: Seq<char>,
    args: Seq<ValueView>,
) -> Result<(ValueView, Seq<(ValueView, ValueView)>), ErrorKind> {
    if m == "insert"@ && args.len() == 2 {
        Ok((ValueView::Null, pairs.push((args[0], args[1]))))
    } else if m == "len"@ && args.len() == 0 {
        if pairs.len() <= i32::MAX {
            Ok((ValueView::Int(pairs.len() as i32), pairs))
        } else {
            Err(ErrorKind::Arithmetic)
        }
    } else if m == "get"@ && args.len() == 1 {
        let j = first_key(pairs, args[0], 0);
        if j < pairs.len() {
            Ok((pairs[j].1, pairs))
        } else {
            Err(ErrorKind::Lookup)
        }
    } else {
        Err(ErrorKind::Lookup)
    }
}

/// Whether running the dictionary method `m` with `args` on the dictionary
/// at `k` of the stores `before` leaves the stores `after` and gives `r`.
pub open spec fn dict_method_done(
    before: RuntimeView,
    after: RuntimeView,
    k: int,
    m: Seq<char>,
    args: Seq<ValueView>,
    r: Result<Value, CompileError>,
) -> bool {
    match dict_method(before.dictionaries[k].pairs, m, args) {
        Ok((v, ps)) => (r matches Ok(x) && x@ == v && after.dictionaries == before.dictionaries.update(
            k,
            crate::store::DictionaryView { pairs: ps, ..before.dictionaries[k] },
        ) && after.variables == before.variables && after.arrays == before.arrays
            && after.functions == before.functions),
        Err(e) => (r matches Err(x) && kind_of(x) == e && after == before),
    }
}

/// Runs the method `m` on the dictionary at position `k`, as `dict_method`
/// says.
fn call_dict_method(rt: &mut Runtime, k: usize, m: &String, args: &Vec<Value>) -> (r: Result<Value, CompileError>)
    requires
        k < old(rt)@.dictionaries.len(),
    ensures
        dict_method_done(old(rt)@, final(rt)@, k as int, m@, crate::store::values_view(args@), r),
{
    proof {
        reveal_strlit("insert");
        reveal_strlit("len");
        reveal_strlit("get");
    }
    let ghost av = crate::store::values_view(args@);
    assert(args@.len() == av.len());
    assert(args@.len() > 0 ==> av[0] == args@[0]@);
    assert(args@.len() > 1 ==> av[1] == args@[1]@);
    let is_insert = *m == String::from_str("insert");
    let is_len = *m == String::from_str("len");
    let is_get = *m == String::from_str("get");
    if is_insert && args.len() == 2 {
        let mut dicts: Vec<Dictionary> = Vec::new();
        std::mem::swap(&mut dicts, &mut rt.dictionaries);
        let mut d = dicts.remove(k);
        let ghost old_d = d@;
        d.pairs.push((args[0].duplicate(), args[1].duplicate()));
        assert(d@.pairs =~= old_d.pairs.push((av[0], av[1])));
        dicts.insert(k, d);
        rt.dictionaries = dicts;
        assert(rt@.dictionaries =~= old(rt)@.dictionaries.update(k as int, crate::store::DictionaryView { pairs: d@.pairs, ..old(rt)@.dictionaries[k as int] }));
        return Ok(Value::Null);
    }
    assert(old(rt)@.dictionaries.update(k as int, crate::store::DictionaryView { pairs: old(rt)@.dictionaries[k as int].pairs, ..old(rt)@.dictionaries[k as int] }) =~= old(rt)@.dictionaries);
    if is_len && args.len() == 0 {
        let n = rt.dictionaries[k].pairs.len();
        if n > 2147483647 {
            return Err(error_of(4, "length out of range"));
        }
        return Ok(Value::Int(n as i32));
    }
    if is_get && args.len() == 1 {
        let pairs = &rt.dictionaries[k].pairs;
        let ghost pv = old(rt)@.dictionaries[k as int].pairs;
        assert(pv == crate::store::pairs_view(pairs@));
        let mut j: usize = 0;
        while j < pairs.len()
            invariant
                j <= pairs@.len(),
                args@.len() == 1,
                av == crate::store::values_view(args@),
                pv == crate::store::pairs_view(pairs@),
                pv == old(rt)@.dictionaries[k as int].pairs,
                k < old(rt)@.dictionaries.len(),
                rt@ == old(rt)@,
                is_get && args@.len() == 1 && !(is_insert && args@.len() == 2) && !(is_len && args@.len() == 0),
                is_get == (m@ == "get"@),
                old(rt)@.dictionaries.update(k as int, crate::store::DictionaryView { pairs: pv, ..old(rt)@.dictionaries[k as int] }) == old(rt)@.dictionaries,
                first_key(pv, av[0], 0) == first_key(pv, av[0], j as int),
            decreases pairs@.len() - j,
        {
            assert(pv[j as int] == (pairs@[j as int].0@, pairs@[j as int].1@));
            if same_value(&pairs[j].0, &args[0]) {
                assert(first_key(pv, av[0], j as int) == j);
                return Ok(pairs[j].1.duplicate());
            }
            j += 1;
        }
        return Err(error_of(2, "no such key"));
    }
    Err(error_of(2, "unknown dictionary method"))
}

/// Whether running the array method `m` with `args` on the array at `k`
/// of the stores `before` leaves the stores `after` and gives `r`, as
/// `array_method` says.
pub open spec fn array_method_done(
    before: RuntimeView,
    after: RuntimeView,
    k: int,
    m: Seq<char>,
    args: Seq<ValueView>,
    r: Result<Value, CompileError>,
) -> bool {
    match array_method(before.arrays[k].values, m, args) {
        Ok((v, vals)) => (r matches Ok(x) && x@ == v && after.arrays == before.arrays.update(
            k,
            crate::store::ArrayView { values: vals, ..before.arrays[k] },
        ) && after.variables == before.variables && after.dictionaries == before.dictionaries
            && after.functions == before.functions),
        Err(e) => (r matches Err(x) && kind_of(x) == e && after == before),
    }
}

/// Calls the method of a dot call on an array or a dictionary: `push`,
/// `pop`, `len` and `get` on arrays (see `array_method`); `insert`, `len`
/// and `get` on dictionaries (see `dict_method`). A name that is neither is
/// a lookup failure.
pub fn compile_dot_statement(rt: &mut Runtime, object: &String, method: &String) -> (r: Result<Value, CompileError>)
    ensures
        final(rt)@.variables == old(rt)@.variables,
        final(rt)@.functions == old(rt)@.functions,
        crate::store::last_array(old(rt)@.arrays, object@) < 0 && crate::store::last_dictionary(
            old(rt)@.dictionaries,
            object@,
        ) < 0 ==> (r is Err && final(rt)@ == old(rt)@),
        crate::store::last_array(old(rt)@.arrays, object@) >= 0 ==> exists|nodes: Seq<ASTNode>| #[trigger]
            is_ast_of(method@, nodes) && (nodes.len() > 0 ==> (nodes[0] matches ASTNode::FunctionCall(m)
            ==> (arguments_from(old(rt)@.variables, nodes, 1, first_close(nodes, 1)) matches Ok(args)
            ==> array_method_done(
            old(rt)@,
            final(rt)@,
            crate::store::last_array(old(rt)@.arrays, object@),
            m@,
            args,
            r,
        )))),
        crate::store::last_array(old(rt)@.arrays, object@) < 0 && crate::store::last_dictionary(
            old(rt)@.dictionaries,
            object@,
        ) >= 0 ==> exists|nodes: Seq<ASTNode>| #[trigger] is_ast_of(method@, nodes) && (nodes.len() > 0 ==> (
        nodes[0] matches ASTNode::FunctionCall(m) ==> (arguments_from(
            old(rt)@.variables,
            nodes,
            1,
            first_close(nodes, 1),
        ) matches Ok(args) ==> dict_method_done(
            old(rt)@,
            final(rt)@,
            crate::store::last_dictionary(old(rt)@.dictionaries, object@),
            m@,
            args,
            r,
        )))),
{
    let nodes = string_to_ast(method.clone());
    assert(is_ast_of(method@, nodes@));
    if nodes.len() == 0 {
        return Err(error_of(0, "empty method call"));
    }
    let m = match &nodes[0] {
        ASTNode::FunctionCall(m) => m.clone(),
        _ => {
            return Err(error_of(0, "a method call needs a name and arguments"));
        },
    };
    let close = close_of(nodes.as_slice(), 1);
    let args = call_arguments(rt, nodes.as_slice(), 1, close)?;
    if let Some(k) = rt.find_array(object.as_str()) {
        return call_array_method(rt, k, &m, &args);
    }
    if let Some(k) = rt.find_dictionary(object.as_str()) {
        return call_dict_method(rt, k, &m, &args);
    }
    Err(error_of(2, "no array or dictionary of that name"))
}

/// Places an operand: the first one fills the left side, later ones the
/// right side.
fn place(first: &mut Option<Value>, second: &mut Option<Value>, v: Value)
    ensures
        *old(first) is None ==> *final(first) == Some(v) && *final(second) == *old(second),
        *old(first) is Some ==> *final(first) == *old(first) && *final(second) == Some(v),
{
    if first.is_none() {
        *first = Some(v);
    } else {
        *second = Some(v);
    }
}

/// Whether the nodes from `start` on are one literal, with perhaps a `;`
/// after it.
pub open spec fn lone_literal(nodes: Seq<ASTNode>, start: int) -> bool {
    0 <= start < nodes.len() && literal_value(nodes[start]) is Some && (nodes.len() == start + 1 || (
    nodes.len() == start + 2 && nodes[start + 1] is SemiColon))
}

/// The value of an operand node: a literal, or the variable of that name.
pub open spec fn operand_value(vars: Seq<VariableView>, n: ASTNode) -> Option<ValueView> {
    match n {
        ASTNode::VariableCall(name) => value_named(vars, name@),
        _ => literal_value(n),
    }
}

/// The views of an optional value.
pub open spec fn opt_view(v: Option<Value>) -> Option<ValueView> {
    match v {
        Some(x) => Some(x@),
        None => None,
    }
}

/// The text of an optional operator.
pub open spec fn opt_text(o: Option<String>) -> Option<Seq<char>> {
    match o {
        Some(x) => Some(x@),
        None => None,
    }
}

/// The operands and operator of an expression made of literals, known
/// variables and operators only (`;` and parentheses are passed over), read
/// from node `i` on: the first operand fills the left side, later ones the
/// right side, and the last operator counts. `None` for any other
/// expression.
pub open spec fn simple_from(
    vars: Seq<VariableView>,
    nodes: Seq<ASTNode>,
    i: int,
    first: Option<ValueView>,
    second: Option<ValueView>,
    op: Option<Seq<char>>,
) -> Option<(Option<ValueView>, Option<ValueView>, Option<Seq<char>>)>
    decreases nodes.len() - i,
{
    if i < 0 || i >= nodes.len() {
        Some((first, second, op))
    } else if operand_value(vars, nodes[i]) is Some {
        let v = operand_value(vars, nodes[i]);
        if first is None {
            simple_from(vars, nodes, i + 1, v, second, op)
        } else {
            simple_from(vars, nodes, i + 1, first, v, op)
        }
    } else {
        match nodes[i] {
            ASTNode::Operator(o) => simple_from(vars, nodes, i + 1, first, second, Some(o@)),
            ASTNode::SemiColon | ASTNode::LeftParenthesis | ASTNode::RightParenthesis => simple_from(
                vars,
                nodes,
                i + 1,
                first,
                second,
                op,
            ),
            _ => None,
        }
    }
}

/// What a simple expression gives: without an operator its first operand
/// (an empty expression is a syntax error); with one, what `binary` says of
/// the two operands, a missing one being `Null`.
pub open spec fn simple_result(r: Result<Value, CompileError>, parts: (Option<ValueView>, Option<ValueView>, Option<Seq<char>>)) -> bool {
    let (f, s, o) = parts;
    match o {
        None => match f {
            Some(v) => r matches Ok(x) && x@ == v,
            None => r matches Err(e) && kind_of(e) == ErrorKind::Syntax,
        },
        Some(op) => {
            let a = match f {
                Some(v) => v,
                None => ValueView::Null,
            };
            let b = match s {
                Some(v) => v,
                None => ValueView::Null,
            };
            match crate::operator::binary(a, op, b) {
                crate::operator::Outcome::Value(v) => r matches Ok(x) && x@ == v,
                crate::operator::Outcome::Fault(k) => r matches Err(e) && kind_of(e) == k,
                crate::operator::Outcome::Native => true,
            }
        },
    }
}

/// Whether a function call or a dot call stands in `nodes` from `start` on.
pub open spec fn has_call(nodes: Seq<ASTNode>, start: int) -> bool {
    exists|k: int| start <= k < nodes.len() && (#[trigger] nodes[k] is FunctionCall || nodes[k] is Dot)
}

/// An expression with a call in it is no simple expression, whatever the
/// variables.
pub proof fn lemma_call_not_simple(
    vars: Seq<VariableView>,
    nodes: Seq<ASTNode>,
    i: int,
    first: Option<ValueView>,
    second: Option<ValueView>,
    op: Option<Seq<char>>,
)
    requires
        0 <= i,
        has_call(nodes, i),
    ensures
        simple_from(vars, nodes, i, first, second, op) is None,
    decreases nodes.len() - i,
{
    let k = choose|k: int| i <= k < nodes.len() && (#[trigger] nodes[k] is FunctionCall || nodes[k] is Dot);
    if k > i {
        assert(has_call(nodes, i + 1));
        let v = operand_value(vars, nodes[i]);
        lemma_call_not_simple(vars, nodes, i + 1, v, second, op);
        lemma_call_not_simple(vars, nodes, i + 1, first, v, op);
        lemma_call_not_simple(vars, nodes, i + 1, first, second, op);
        match nodes[i] {
            ASTNode::Operator(o) => {
                lemma_call_not_simple(vars, nodes, i + 1, first, second, Some(o@));
            },
            _ => {},
        }
    }
}

/// Reduces, from position `start` of `nodes` on, a left operand, an operator and a right operand to one value.
/// Each operand is a literal, a variable, a function call or a dot call;
/// without an operator the value is the first operand. A missing operand
/// is `Null`, which no operator takes.
pub fn evaluate<H: Natives>(rt: &mut Runtime, h: &mut H, nodes: &[ASTNode], start: usize, depth: u32) -> (r: Result<Value, CompileError>)
    ensures
        lone_literal(nodes@, start as int) ==> (r matches Ok(v) && Some(v@) == literal_value(nodes@[start as int])
            && final(rt)@ == old(rt)@),
        simple_from(old(rt)@.variables, nodes@, start as int, None, None, None) matches Some(parts) ==> (
        final(rt)@ == old(rt)@ && simple_result(r, parts)),
        final(rt)@ == old(rt)@ || has_call(nodes@, start as int),
    decreases depth, 3int,
{
    let ghost lone = lone_literal(nodes@, start as int);
    let ghost simple = simple_from(old(rt)@.variables, nodes@, start as int, None, None, None);
    let mut first: Option<Value> = None;
    let mut second: Option<Value> = None;
    let mut op: Option<String> = None;
    let n = nodes.len();
    let mut i: usize = start;
    while i < n
        invariant
            n == nodes@.len(),
            lone == lone_literal(nodes@, start as int),
            lone ==> start <= i && rt@ == old(rt)@ && op is None && second is None,
            lone && i == start ==> first is None,
            lone && i > start ==> (first matches Some(v) && Some(v@) == literal_value(nodes@[start as int])),
            start <= i,
            rt@ == old(rt)@ || has_call(nodes@, start as int),
            simple == simple_from(old(rt)@.variables, nodes@, start as int, None, None, None),
            simple is Some ==> rt@ == old(rt)@ && (i <= start ==> first is None && second is None && op is None) && (
            start <= i ==> simple == simple_from(old(rt)@.variables, nodes@, i as int, opt_view(first), opt_view(second), opt_text(op))),
        decreases n - i,
    {
        match literal_of(&nodes[i]) {
            Some(v) => place(&mut first, &mut second, v),
            None => match &nodes[i] {
                ASTNode::VariableCall(name) => match rt.find_variable(name.as_str()) {
                    Some(k) => {
                        proof {
                            crate::store::lemma_last_variable(rt@.variables, name@);
                        }
                        let v = rt.variables[k].value.duplicate();
                        assert(value_named(rt@.variables, name@) == Some(v@));
                        place(&mut first, &mut second, v);
                    },
                    None => {
                        proof {
                            if simple is Some {
                                assert(value_named(old(rt)@.variables, name@) is None);
                                assert(simple_from(old(rt)@.variables, nodes@, i as int, opt_view(first), opt_view(second), opt_text(op)) is None);
                            }
                        }
                        return Err(error_of(2, "unknown variable"));
                    },
                },
                ASTNode::Operator(o) => {
                    op = Some(o.clone());
                },
                ASTNode::FunctionCall(name) => {
                    proof {
                        if simple is Some {
                            assert(simple_from(old(rt)@.variables, nodes@, i as int, opt_view(first), opt_view(second), opt_text(op)) is None);
                        }
                    }
                    let close = close_of(nodes, i + 1);
                    assert(nodes@[i as int] is FunctionCall);
                    let v = parse_function_call(rt, h, name, nodes, i + 1, close, depth)?;
                    place(&mut first, &mut second, v);
                    i = if close < n { close } else { n - 1 };
                },
                ASTNode::Dot { object, method } => {
                    proof {
                        if simple is Some {
                            assert(simple_from(old(rt)@.variables, nodes@, i as int, opt_view(first), opt_view(second), opt_text(op)) is None);
                        }
                    }
                    assert(nodes@[i as int] is Dot);
                    let v = compile_dot_statement(rt, object, method)?;
                    place(&mut first, &mut second, v);
                },
                _ => {},
            },
        }
        i += 1;
    }
    proof {
        if lone {
            assert(i > start);
        }
    }
    match op {
        None => match first {
            Some(v) => Ok(v),
            None => Err(error_of(0, "empty expression")),
        },
        Some(o) => {
            let a = match first {
                Some(v) => v,
                None => Value::Null,
            };
            let b = match second {
                Some(v) => v,
                None => Value::Null,
            };
            match apply_binary(&a, o.as_str(), &b) {
                Some(res) => res,
                None => {
                    let mut args: Vec<Value> = Vec::new();
                    args.push(promoted(&a));
                    args.push(promoted(&b));
                    match h.call_native(o.as_str(), &args) {
                        Some(v) => Ok(v),
                        None => Err(error_of(1, "the native operator failed")),
                    }
                },
            }
        },
    }
}

/// The value of a simple expression, where it has one without the host.
pub open spec fn simple_value(parts: (Option<ValueView>, Option<ValueView>, Option<Seq<char>>)) -> Option<ValueView> {
    let (f, s, o) = parts;
    match o {
        None => f,
        Some(op) => {
            let a = match f {
                Some(v) => v,
                None => ValueView::Null,
            };
            let b = match s {
                Some(v) => v,
                None => ValueView::Null,
            };
            match crate::operator::binary(a, op, b) {
                crate::operator::Outcome::Value(v) => Some(v),
                _ => None,
            }
        },
    }
}

/// What a condition over a simple expression gives: true exactly where its
/// value is the integer 1, and the expression's error where it has one.
pub open spec fn condition_result(r: Result<bool, CompileError>, parts: (Option<ValueView>, Option<ValueView>, Option<Seq<char>>)) -> bool {
    let (f, s, o) = parts;
    match simple_value(parts) {
        Some(v) => r == Ok::<bool, CompileError>(v == ValueView::Int(1)),
        None => match o {
            None => (r matches Err(e) && kind_of(e) == ErrorKind::Syntax),
            Some(op) => {
                let a = match f {
                    Some(v) => v,
                    None => ValueView::Null,
                };
                let b = match s {
                    Some(v) => v,
                    None => ValueView::Null,
                };
                match crate::operator::binary(a, op, b) {
                    crate::operator::Outcome::Fault(k) => (r matches Err(e) && kind_of(e) == k),
                    _ => true,
                }
            },
        },
    }
}

/// Whether evaluating the condition text `c` in the stores `before`, which
/// leaves the stores `after`, may give `r`: for the nodes of `c`, where they
/// form a simple expression, the stores do not change and `r` is as
/// `condition_result` says.
pub open spec fn condition_text_ok(before: RuntimeView, after: RuntimeView, c: Seq<char>, r: Result<bool, CompileError>) -> bool {
    exists|nodes: Seq<ASTNode>| #[trigger] is_ast_of(c, nodes) && (simple_from(
        before.variables,
        nodes,
        0,
        None,
        None,
        None,
    ) matches Some(parts) ==> after == before && condition_result(r, parts))
}

/// Whether the condition text `c`, in the stores `rt`, is a simple
/// expression whatever its nodes, with a value that is not 1.
pub open spec fn condition_false(rt: RuntimeView, c: Seq<char>) -> bool {
    forall|nodes: Seq<ASTNode>| #[trigger] is_ast_of(c, nodes) ==> (simple_from(rt.variables, nodes, 0, None, None, None) matches Some(parts)
        && (simple_value(parts) matches Some(v) && v != ValueView::Int(1)))
}

/// Evaluates a condition: true exactly where its value is the integer 1.
pub fn compile_conditional_statement<H: Natives>(
    rt: &mut Runtime,
    h: &mut H,
    expression: &[ASTNode],
    depth: u32,
) -> (r: Result<bool, CompileError>)
    ensures
        lone_literal(expression@, 0) ==> r == Ok::<bool, CompileError>(
            literal_value(expression@[0]) == Some(ValueView::Int(1)),
        ) && final(rt)@ == old(rt)@,
        simple_from(old(rt)@.variables, expression@, 0, None, None, None) matches Some(parts) ==> (final(rt)@
            == old(rt)@ && condition_result(r, parts)),
        final(rt)@ == old(rt)@ || has_call(expression@, 0),
    decreases depth, 4int,
{
    let v = evaluate(rt, h, expression, 0, depth)?;
    match v {
        Value::Int(1) => Ok(true),
        _ => Ok(false),
    }
}

/// Calls the function `name` with the arguments between positions `from`
/// and `to` of `nodes`.
pub fn parse_function_call<H: Natives>(
    rt: &mut Runtime,
    h: &mut H,
    name: &String,
    nodes: &[ASTNode],
    from: usize,
    to: usize,
    depth: u32,
) -> (r: Result<Value, CompileError>)
    requires
        from <= to <= nodes@.len() || from > nodes@.len(),
    ensures
        first_function(old(rt)@.functions, name@) == old(rt)@.functions.len() && !is_builtin(name@) ==> (
        r is Err && final(rt)@ == old(rt)@),
        first_function(old(rt)@.functions, name@) == old(rt)@.functions.len() && !is_builtin(name@)
            && from <= to <= nodes@.len() && arguments_from(old(rt)@.variables, nodes@, from as int, to as int) is Ok
            ==> (r matches Err(e) && kind_of(e) == ErrorKind::Lookup),
        first_function(old(rt)@.functions, name@) == old(rt)@.functions.len() && from <= to <= nodes@.len() ==> (
        arguments_from(old(rt)@.variables, nodes@, from as int, to as int) matches Ok(vs) ==> (text_builtin(
            name@,
            vs,
        ) matches Some(Some(v)) ==> (r matches Ok(x) && x@ == v && final(rt)@ == old(rt)@))),
        depth > 0 && first_function(old(rt)@.functions, name@) < old(rt)@.functions.len() && from <= to
            <= nodes@.len() ==> (arguments_from(old(rt)@.variables, nodes@, from as int, to as int) matches Ok(vs)
            ==> user_call_ok(
            old(rt)@,
            old(rt)@.functions[first_function(old(rt)@.functions, name@)],
            vs,
            final(rt)@,
            r,
        )),
    decreases depth, 2int,
{
    let args = if from <= to && to <= nodes.len() {
        call_arguments(rt, nodes, from, to)?
    } else {
        Vec::new()
    };
    get_function_result(rt, h, name.as_str(), args, depth)
}

/// Resolves a call: a user function first, then a built-in. A name that is
/// neither is a lookup failure, and then no store changes.
pub fn get_function_result<H: Natives>(
    rt: &mut Runtime,
    h: &mut H,
    function_name: &str,
    parameter_and_value: Vec<Value>,
    depth: u32,
) -> (r: Result<Value, CompileError>)
    ensures
        first_function(old(rt)@.functions, function_name@) == old(rt)@.functions.len()
            && !is_builtin(function_name@) ==> (r matches Err(e) && kind_of(e) == ErrorKind::Lookup
            && final(rt)@ == old(rt)@),
        first_function(old(rt)@.functions, function_name@) == old(rt)@.functions.len()
            && is_builtin(function_name@) ==> final(rt)@ == old(rt)@,
        first_function(old(rt)@.functions, function_name@) == old(rt)@.functions.len() ==> (text_builtin(
            function_name@,
            crate::store::values_view(parameter_and_value@),
        ) matches Some(Some(v)) ==> (r matches Ok(x) && x@ == v && final(rt)@ == old(rt)@)),
        depth > 0 && first_function(old(rt)@.functions, function_name@) < old(rt)@.functions.len() ==> user_call_ok(
            old(rt)@,
            old(rt)@.functions[first_function(old(rt)@.functions, function_name@)],
            crate::store::values_view(parameter_and_value@),
            final(rt)@,
            r,
        ),
    decreases depth, 1int,
{
    proof {
        reveal_strlit("concat");
        reveal_strlit("to_uppercase");
        reveal_strlit("to_lowercase");
        reveal_strlit("trim");
        let nm = function_name@;
        let names = crate::builtin::builtin_names();
        if nm == "concat"@ {
            assert(names[19] == nm);
        } else if nm == "to_uppercase"@ {
            assert(names[20] == nm);
        } else if nm == "to_lowercase"@ {
            assert(names[21] == nm);
        } else if nm == "trim"@ {
            assert(names[22] == nm);
        }
    }
    match rt.find_function_in_stack(function_name) {
        Some(k) => run_user_function(rt, h, k, parameter_and_value, depth),
        None => {
            if is_builtin_name(function_name) {
                call_standard_function(h, function_name, parameter_and_value)
            } else {
                Err(error_of(2, "function not found"))
            }
        },
    }
}

/// The default value that the nodes of a parameter's default text give:
/// the first node's literal taken to the declared type, or `Null` where
/// there is none or it cannot take the type.
pub open spec fn default_of(nodes: Seq<ASTNode>, t: ValueType) -> ValueView {
    if nodes.len() > 0 && literal_value(nodes[0]) is Some {
        match coerced(literal_value(nodes[0])->0, t) {
            Some(v) => v,
            None => ValueView::Null,
        }
    } else {
        ValueView::Null
    }
}

/// The default value of a parameter: the literal its text spells, taken to
/// the declared type, or `Null`.
fn default_value(text: &String, t: ValueType) -> (r: Value)
    ensures
        r@ == ValueView::Null || crate::value::has_type(r@, t),
        exists|nodes: Seq<ASTNode>| #[trigger] is_ast_of(text@, nodes) && r@ == default_of(nodes, t),
{
    let nodes = string_to_ast(text.clone());
    assert(is_ast_of(text@, nodes@));
    if nodes.len() == 0 {
        return Value::Null;
    }
    match literal_of(&nodes[0]) {
        Some(v) => match coerce(v, t) {
            Some(x) => x,
            None => Value::Null,
        },
        None => Value::Null,
    }
}

/// Removes the last variable named `name`.
fn remove_from_variable_stack(rt: &mut Runtime, name: &String)
    ensures
        last_variable(old(rt)@.variables, name@) >= 0 ==> final(rt)@.variables == old(rt)@.variables.remove(
            last_variable(old(rt)@.variables, name@),
        ),
        last_variable(old(rt)@.variables, name@) < 0 ==> final(rt)@.variables == old(rt)@.variables,
        final(rt)@.arrays == old(rt)@.arrays,
        final(rt)@.dictionaries == old(rt)@.dictionaries,
        final(rt)@.functions == old(rt)@.functions,
{
    match rt.find_variable(name.as_str()) {
        Some(k) => {
            proof {
                crate::store::lemma_last_variable(rt@.variables, name@);
            }
            rt.variables.remove(k);
            assert(rt@.variables =~= old(rt)@.variables.remove(k as int));
        },
        None => {},
    }
}

/// The variables that binding the parameters `params` from position `b`
/// on pushes: each takes its argument converted to its declared type, or,
/// with no argument, its default value. `None` where a type is unknown or
/// an argument cannot take its type.
pub open spec fn bind_from(
    params: Seq<(Seq<char>, Seq<char>, Seq<char>)>,
    defaults: Seq<ValueView>,
    args: Seq<ValueView>,
    b: int,
) -> Option<Seq<VariableView>>
    decreases params.len() - b,
{
    if b < 0 || b >= params.len() {
        Some(Seq::empty())
    } else {
        match type_named(params[b].1) {
            None => None,
            Some(t) => {
                let v = if b < args.len() {
                    coerced(args[b], t)
                } else {
                    Some(if b < defaults.len() { defaults[b] } else { ValueView::Null })
                };
                match v {
                    None => None,
                    Some(v) => match bind_from(params, defaults, args, b + 1) {
                        Some(rest) => Some(seq![VariableView { name: params[b].0, var_type: t, value: v }] + rest),
                        None => None,
                    },
                }
            },
        }
    }
}

/// The variables after removing, for each name from the last to the first,
/// the last variable of that name.
pub open spec fn remove_all(vars: Seq<VariableView>, names: Seq<Seq<char>>) -> Seq<VariableView>
    decreases names.len(),
{
    if names.len() == 0 {
        vars
    } else {
        let k = last_variable(vars, names.last());
        remove_all(if k >= 0 { vars.remove(k) } else { vars }, names.drop_last())
    }
}

/// The names of the parameters.
pub open spec fn names_of(params: Seq<(Seq<char>, Seq<char>, Seq<char>)>) -> Seq<Seq<char>> {
    params.map_values(|p: (Seq<char>, Seq<char>, Seq<char>)| p.0)
}

/// Whether running a function body `lines` from the stores `rt` may end in
/// the stores `fin` with the result `r`: as `block_ok`, except that a line
/// `return value;` ends the body with the value of a simple expression (or
/// its error), and a body that ends without one gives `Null`.
pub open spec fn body_ok(rt: RuntimeView, lines: Seq<Seq<char>>, fin: RuntimeView, r: Result<Value, CompileError>) -> bool
    decreases lines.len(),
{
    if lines.len() == 0 {
        (r matches Ok(v) && v@ == ValueView::Null && fin == rt)
    } else {
        exists|n: Seq<ASTNode>| #[trigger] is_ast_of(lines[0], n) && if n.len() == 0 {
            body_ok(rt, lines.drop_first(), fin, r)
        } else if n[0] is Return {
            exists|vn: Seq<ASTNode>| #[trigger] is_ast_of(n[0]->Return_0@, vn) && match simple_from(
                rt.variables,
                vn,
                0,
                None,
                None,
                None,
            ) {
                Some(parts) => match simple_outcome(parts) {
                    Some(Ok(v)) => (r matches Ok(x) && x@ == v && fin == rt),
                    Some(Err(k)) => (r matches Err(e) && kind_of(e) == k && fin == rt),
                    None => true,
                },
                None => true,
            }
        } else {
            match stmt_effect(rt, n) {
                Some(Ok(after)) => body_ok(after, lines.drop_first(), fin, r),
                Some(Err(k)) => (r matches Err(e) && kind_of(e) == k && fin == rt),
                None => true,
            }
        }
    }
}

/// Whether calling the user function `f` with the arguments `args` from the
/// stores `before` may end in the stores `after` with the result `r`: the
/// parameters are pushed as variables as `bind_from` says (a failure there
/// is a type error), the body runs as `body_ok` says, and then the last
/// variable of each parameter's name is removed again.
pub open spec fn user_call_ok(before: RuntimeView, f: FunctionView, args: Seq<ValueView>, after: RuntimeView, r: Result<Value, CompileError>) -> bool {
    match bind_from(f.params, f.defaults, args, 0) {
        Some(ps) => exists|mid: RuntimeView| #[trigger] body_ok(
            RuntimeView { variables: before.variables + ps, ..before },
            f.body,
            mid,
            r,
        ) && after == (RuntimeView { variables: remove_all(mid.variables, names_of(f.params)), ..mid }),
        None => (r matches Err(e) && kind_of(e) == ErrorKind::Type),
    }
}

fn clone_values(v: &Vec<Value>) -> (r: Vec<Value>)
    ensures
        r@ == v@,
{
    let mut out: Vec<Value> = Vec::new();
    let mut i: usize = 0;
    while i < v.len()
        invariant
            i <= v@.len(),
            out@ == v@.subrange(0, i as int),
        decreases v@.len() - i,
    {
        out.push(v[i].duplicate());
        assert(v@.subrange(0, i + 1) =~= v@.subrange(0, i as int).push(v@[i as int]));
        i += 1;
    }
    assert(v@.subrange(0, i as int) =~= v@);
    out
}

/// Pushes a variable for each parameter, as `bind_from` says; tells how
/// many were pushed and whether all were.
fn bind_parameters(
    rt: &mut Runtime,
    params: &Vec<(String, String, String)>,
    defaults: &Vec<Value>,
    args: &Vec<Value>,
) -> (r: (usize, bool))
    ensures
        match bind_from(
            crate::token::param_texts(params@),
            crate::store::values_view(defaults@),
            crate::store::values_view(args@),
            0,
        ) {
            Some(ps) => r.1 && final(rt)@.variables == old(rt)@.variables + ps && r.0 == params@.len(),
            None => !r.1,
        },
        r.0 <= params@.len(),
        final(rt)@.arrays == old(rt)@.arrays,
        final(rt)@.dictionaries == old(rt)@.dictionaries,
        final(rt)@.functions == old(rt)@.functions,
{
    let ghost pt = crate::token::param_texts(params@);
    let ghost dv = crate::store::values_view(defaults@);
    let ghost av = crate::store::values_view(args@);
    let ghost pushed: Seq<VariableView> = Seq::empty();
    let mut b: usize = 0;
    assert(old(rt)@.variables + pushed =~= old(rt)@.variables);
    while b < params.len()
        invariant
            b <= params@.len(),
            pt == crate::token::param_texts(params@),
            dv == crate::store::values_view(defaults@),
            av == crate::store::values_view(args@),
            rt@.variables == old(rt)@.variables + pushed,
            rt@.arrays == old(rt)@.arrays,
            rt@.dictionaries == old(rt)@.dictionaries,
            rt@.functions == old(rt)@.functions,
            bind_from(pt, dv, av, 0) == match bind_from(pt, dv, av, b as int) {
                Some(rest) => Some(pushed + rest),
                None => None::<Seq<VariableView>>,
            },
        decreases params@.len() - b,
    {
        assert(pt[b as int] == (params@[b as int].0@, params@[b as int].1@, params@[b as int].2@));
        match type_of_name(params[b].1.as_str()) {
            Some(t) => {
                let v = if b < args.len() {
                    coerce(args[b].duplicate(), t)
                } else if b < defaults.len() {
                    Some(defaults[b].duplicate())
                } else {
                    Some(Value::Null)
                };
                match v {
                    Some(v) => {
                        let var = Variable { name: params[b].0.clone(), var_type: t, value: v };
                        let ghost before = rt@;
                        rt.variables.push(var);
                        proof {
                            assert(rt@.variables =~= before.variables.push(var@));
                            match bind_from(pt, dv, av, b + 1) {
                                Some(rest) => {
                                    assert(pushed + (seq![var@] + rest) =~= pushed.push(var@) + rest);
                                },
                                None => {},
                            }
                            assert(old(rt)@.variables + pushed.push(var@) =~= (old(rt)@.variables + pushed).push(var@));
                            pushed = pushed.push(var@);
                        }
                    },
                    None => {
                        return (b, false);
                    },
                }
            },
            None => {
                return (b, false);
            },
        }
        b += 1;
    }
    assert(pushed + Seq::<VariableView>::empty() =~= pushed);
    (b, true)
}

/// Removes, for the first `bound` parameters from the last to the first,
/// the last variable of that name.
fn remove_parameters(rt: &mut Runtime, params: &Vec<(String, String, String)>, bound: usize)
    requires
        bound <= old(rt)@.variables.len() + params@.len(),
        bound <= params@.len(),
    ensures
        final(rt)@.variables == remove_all(
            old(rt)@.variables,
            names_of(crate::token::param_texts(params@)).take(bound as int),
        ),
        final(rt)@.arrays == old(rt)@.arrays,
        final(rt)@.dictionaries == old(rt)@.dictionaries,
        final(rt)@.functions == old(rt)@.functions,
{
    let ghost names = names_of(crate::token::param_texts(params@));
    let mut j: usize = bound;
    while j > 0
        invariant
            j <= bound,
            bound <= params@.len(),
            names == names_of(crate::token::param_texts(params@)),
            remove_all(rt@.variables, names.take(j as int)) == remove_all(old(rt)@.variables, names.take(bound as int)),
            rt@.arrays == old(rt)@.arrays,
            rt@.dictionaries == old(rt)@.dictionaries,
            rt@.functions == old(rt)@.functions,
        decreases j,
    {
        j -= 1;
        let ghost before = rt@.variables;
        proof {
            assert(names.take(j + 1).last() == params@[j as int].0@);
            assert(names.take(j + 1).drop_last() =~= names.take(j as int));
        }
        remove_from_variable_stack(rt, &params[j].0);
    }
}

/// Runs a function body until a `return`, as `body_ok` says.
fn run_body<H: Natives>(rt: &mut Runtime, h: &mut H, body: &Vec<String>, depth: u32) -> (r: Result<Value, CompileError>)
    ensures
        body_ok(old(rt)@, crate::token::texts(body@), final(rt)@, r),
    decreases depth, 8int,
{
    let ghost lines = crate::token::texts(body@);
    let mut line: usize = 0;
    assert(lines.skip(0) =~= lines);
    while line < body.len()
        invariant
            line <= body@.len(),
            lines == crate::token::texts(body@),
            forall|fin: RuntimeView, res: Result<Value, CompileError>| #[trigger] body_ok(
                rt@,
                lines.skip(line as int),
                fin,
                res,
            ) ==> body_ok(old(rt)@, lines, fin, res),
        decreases body@.len() - line,
    {
        let nodes = string_to_ast(body[line].clone());
        let ghost before = rt@;
        let ghost rest = lines.skip(line as int);
        proof {
            assert(rest.drop_first() =~= lines.skip(line + 1));
            assert(rest[0] == body@[line as int]@);
            assert(is_ast_of(rest[0], nodes@));
        }
        if nodes.len() > 0 {
            if let ASTNode::Return(text) = &nodes[0] {
                let value_nodes = string_to_ast(text.clone());
                let res = evaluate(rt, h, value_nodes.as_slice(), 0, depth);
                proof {
                    assert(is_ast_of(nodes@[0]->Return_0@, value_nodes@));
                    assert(body_ok(before, rest, rt@, res));
                }
                return res;
            }
            match route_to_parser(rt, h, nodes.as_slice(), depth) {
                Ok(_) => {},
                Err(e) => {
                    proof {
                        assert(body_ok(before, rest, rt@, Err::<Value, CompileError>(e)));
                    }
                    return Err(e);
                },
            }
        }
        proof {
            assert forall|fin: RuntimeView, res: Result<Value, CompileError>| #[trigger] body_ok(
                rt@,
                lines.skip(line + 1),
                fin,
                res,
            ) implies body_ok(old(rt)@, lines, fin, res) by {
                assert(body_ok(before, rest, fin, res));
            }
        }
        line += 1;
    }
    proof {
        assert(lines.skip(line as int) =~= Seq::<Seq<char>>::empty());
        assert(body_ok(rt@, lines.skip(line as int), rt@, Ok::<Value, CompileError>(Value::Null)));
    }
    Ok(Value::Null)
}

/// Runs the user function at position `k`: binds each parameter to its
/// argument (or its default), runs the body until a `return`, then removes
/// the parameters again, as `user_call_ok` says.
fn run_user_function<H: Natives>(
    rt: &mut Runtime,
    h: &mut H,
    k: usize,
    args: Vec<Value>,
    depth: u32,
) -> (r: Result<Value, CompileError>)
    requires
        k < old(rt)@.functions.len(),
    ensures
        depth == 0 ==> (r matches Err(e) && kind_of(e) == ErrorKind::Limit && final(rt)@ == old(rt)@),
        depth > 0 ==> user_call_ok(old(rt)@, old(rt)@.functions[k as int], crate::store::values_view(args@), final(rt)@, r),
    decreases depth, 0int,
{
    if depth == 0 {
        return Err(error_of(5, "calls nest too deeply"));
    }
    let params = clone_params(&rt.functions[k].params);
    let defaults = clone_values(&rt.functions[k].defaults);
    let body = clone_lines(&rt.functions[k].body);
    let ghost f = old(rt)@.functions[k as int];
    assert(f.params == crate::token::param_texts(params@));
    assert(f.defaults == crate::store::values_view(defaults@));
    assert(f.body == crate::token::texts(body@));
    let (bound, ok) = bind_parameters(rt, &params, &defaults, &args);
    let ghost bound_rt = rt@;
    let result = if ok {
        run_body(rt, h, &body, depth - 1)
    } else {
        Err(error_of(1, "an argument does not fit its parameter"))
    };
    let ghost mid = rt@;
    remove_parameters(rt, &params, bound);
    proof {
        if ok {
            assert(names_of(f.params).take(bound as int) =~= names_of(f.params));
            assert(rt@ == (RuntimeView { variables: remove_all(mid.variables, names_of(f.params)), ..mid }));
            assert(body_ok(bound_rt, f.body, mid, result));
        }
    }
    result
}

/// Whether running the statements `lines` from the stores `rt` may end in
/// the stores `fin` with the result `r`: each line is tokenized; a blank one
/// is passed over; a line whose effect `stmt_effect` states takes the stores
/// on, or stops the run with its error; past a line whose effect is not
/// stated, nothing more is claimed.
pub open spec fn block_ok(rt: RuntimeView, lines: Seq<String>, fin: RuntimeView, r: Result<(), CompileError>) -> bool
    decreases lines.len(),
{
    if lines.len() == 0 {
        r is Ok && fin == rt
    } else {
        exists|n: Seq<ASTNode>| #[trigger] is_ast_of(lines[0]@, n) && if n.len() == 0 {
            block_ok(rt, lines.drop_first(), fin, r)
        } else {
            match stmt_effect(rt, n) {
                Some(Ok(after)) => block_ok(after, lines.drop_first(), fin, r),
                Some(Err(k)) => (r matches Err(e) && kind_of(e) == k && fin == rt),
                None => true,
            }
        }
    }
}

/// Runs each statement of a body in turn, stopping at the first error, as
/// `block_ok` says.
pub fn run_block<H: Natives>(rt: &mut Runtime, h: &mut H, lines: &Vec<String>, depth: u32) -> (r: Result<(), CompileError>)
    ensures
        (forall|k: int| 0 <= k < lines@.len() ==> crate::node::blank(#[trigger] lines@[k]@)) ==> r is Ok && final(rt)@
            == old(rt)@,
        block_ok(old(rt)@, lines@, final(rt)@, r),
    decreases depth, 7int,
{
    let ghost all_blank = forall|k: int| 0 <= k < lines@.len() ==> crate::node::blank(#[trigger] lines@[k]@);
    let mut i: usize = 0;
    assert(lines@.skip(0) =~= lines@);
    while i < lines.len()
        invariant
            i <= lines@.len(),
            all_blank == forall|k: int| 0 <= k < lines@.len() ==> crate::node::blank(#[trigger] lines@[k]@),
            all_blank ==> rt@ == old(rt)@,
            forall|fin: RuntimeView, res: Result<(), CompileError>| #[trigger] block_ok(rt@, lines@.skip(i as int), fin, res)
                ==> block_ok(old(rt)@, lines@, fin, res),
        decreases lines@.len() - i,
    {
        let nodes = string_to_ast(lines[i].clone());
        let ghost before = rt@;
        let ghost rest = lines@.skip(i as int);
        proof {
            assert(rest.drop_first() =~= lines@.skip(i + 1));
            assert(rest[0] == lines@[i as int]);
            assert(is_ast_of(rest[0]@, nodes@));
            if all_blank {
                assert(crate::node::blank(lines@[i as int]@));
                crate::node::lemma_blank_nodes(lines@[i as int]@, nodes@);
            }
        }
        if nodes.len() > 0 {
            let res = route_to_parser(rt, h, nodes.as_slice(), depth);
            match res {
                Ok(_) => {},
                Err(e) => {
                    proof {
                        assert(block_ok(before, rest, rt@, Err::<(), CompileError>(e)));
                        assert(block_ok(old(rt)@, lines@, rt@, Err::<(), CompileError>(e)));
                    }
                    return Err(e);
                },
            }
        }
        proof {
            assert forall|fin: RuntimeView, res: Result<(), CompileError>| #[trigger] block_ok(rt@, lines@.skip(i + 1), fin, res)
                implies block_ok(old(rt)@, lines@, fin, res) by {
                assert(block_ok(before, rest, fin, res));
            }
        }
        i += 1;
    }
    proof {
        assert(lines@.skip(i as int) =~= Seq::<String>::empty());
        assert(block_ok(rt@, lines@.skip(i as int), rt@, Ok::<(), CompileError>(())));
    }
    Ok(())
}

/// Evaluates an `if` or `elif` condition, kept as text; `else` is always
/// taken.
pub fn compile_if_elif_else_statement<H: Natives>(
    rt: &mut Runtime,
    h: &mut H,
    expression: &[ASTNode],
    depth: u32,
) -> (r: Result<bool, CompileError>)
    ensures
        expression@.len() > 0 && expression@[0] is Else ==> r == Ok::<bool, CompileError>(true)
            && final(rt)@ == old(rt)@,
        !(expression@.len() > 0 && (expression@[0] is If || expression@[0] is Elif || expression@[0] is Else))
            ==> (r matches Err(e) && kind_of(e) == ErrorKind::Syntax && final(rt)@ == old(rt)@),
        expression@.len() > 0 ==> (expression@[0] matches ASTNode::If(c) ==> condition_text_ok(old(rt)@, final(rt)@, c@, r)),
        expression@.len() > 0 ==> (expression@[0] matches ASTNode::Elif(c) ==> condition_text_ok(old(rt)@, final(rt)@, c@, r)),
    decreases depth, 5int,
{
    if expression.len() == 0 {
        return Err(error_of(0, "empty conditional"));
    }
    match &expression[0] {
        ASTNode::If(condition) | ASTNode::Elif(condition) => {
            let nodes = string_to_ast(condition.clone());
            let r = compile_conditional_statement(rt, h, nodes.as_slice(), depth);
            assert(is_ast_of(condition@, nodes@));
            r
        },
        ASTNode::Else => Ok(true),
        _ => Err(error_of(0, "not a conditional")),
    }
}

/// Whether `n` belongs in a `try` statement: a block, or `;`.
pub open spec fn try_part(n: ASTNode) -> bool {
    n is Try || n is Catch || n is Finally || n is SemiColon
}

/// Whether `nodes` are a `try` block, then a `catch` block, with no other
/// `try` block after.
pub open spec fn try_then_catch(nodes: Seq<ASTNode>) -> bool {
    nodes.len() >= 2 && nodes[0] is Try && nodes[1] is Catch && forall|k: int| 1 <= k < nodes.len() ==> !(
    #[trigger] nodes[k] is Try)
}

/// What a `try`/`catch`/`finally` statement did: whether the `try` block
/// failed, and whether each block ran.
pub struct TryOutcome {
    pub try_failed: bool,
    pub catch_ran: bool,
    pub finally_ran: bool,
}

/// Whether running the statements `lines` from the stores `rt`, with no
/// failure so far where `good` holds, may end in the stores `fin` and tell
/// `ok`: a blank line
/// is passed over; a line whose effect `stmt_effect` states takes the stores
/// on, or fails, which stops the run unless `keep_going` is set; at the end
/// `ok` tells whether no line failed. Past a line whose effect is not
/// stated, nothing more is claimed.
pub open spec fn guarded_ok(
    rt: RuntimeView,
    lines: Seq<String>,
    keep_going: bool,
    good: bool,
    fin: RuntimeView,
    ok: bool,
) -> bool
    decreases lines.len(),
{
    if lines.len() == 0 {
        ok == good && fin == rt
    } else {
        exists|n: Seq<ASTNode>| #[trigger] is_ast_of(lines[0]@, n) && if n.len() == 0 {
            guarded_ok(rt, lines.drop_first(), keep_going, good, fin, ok)
        } else {
            match stmt_effect(rt, n) {
                Some(Ok(after)) => guarded_ok(after, lines.drop_first(), keep_going, good, fin, ok),
                Some(Err(_)) => if keep_going {
                    guarded_ok(rt, lines.drop_first(), keep_going, false, fin, ok)
                } else {
                    !ok && fin == rt
                },
                None => true,
            }
        }
    }
}

/// Runs the statements of a block and tells whether all of them succeeded,
/// as `guarded_ok` says; a failure of one does not stop the others when
/// `keep_going` is set.
fn run_guarded<H: Natives>(rt: &mut Runtime, h: &mut H, lines: &Vec<String>, keep_going: bool, depth: u32) -> (r: bool)
    ensures
        (forall|k: int| 0 <= k < lines@.len() ==> crate::node::blank(#[trigger] lines@[k]@)) ==> r && final(rt)@
            == old(rt)@,
        guarded_ok(old(rt)@, lines@, keep_going, true, final(rt)@, r),
    decreases depth, 7int,
{
    let ghost all_blank = forall|k: int| 0 <= k < lines@.len() ==> crate::node::blank(#[trigger] lines@[k]@);
    let mut ok = true;
    let mut i: usize = 0;
    assert(lines@.skip(0) =~= lines@);
    while i < lines.len()
        invariant
            i <= lines@.len(),
            all_blank == forall|k: int| 0 <= k < lines@.len() ==> crate::node::blank(#[trigger] lines@[k]@),
            all_blank ==> rt@ == old(rt)@ && ok,
            forall|fin: RuntimeView, res: bool| #[trigger] guarded_ok(rt@, lines@.skip(i as int), keep_going, ok, fin, res)
                ==> guarded_ok(old(rt)@, lines@, keep_going, true, fin, res),
        decreases lines@.len() - i,
    {
        let nodes = string_to_ast(lines[i].clone());
        let ghost before = rt@;
        let ghost rest = lines@.skip(i as int);
        let ghost was_ok = ok;
        proof {
            assert(rest.drop_first() =~= lines@.skip(i + 1));
            assert(rest[0] == lines@[i as int]);
            assert(is_ast_of(rest[0]@, nodes@));
            if all_blank {
                assert(crate::node::blank(lines@[i as int]@));
                crate::node::lemma_blank_nodes(lines@[i as int]@, nodes@);
            }
        }
        if nodes.len() > 0 {
            match route_to_parser(rt, h, nodes.as_slice(), depth) {
                Ok(_) => {},
                Err(_) => {
                    ok = false;
                    if !keep_going {
                        proof {
                            assert(guarded_ok(before, rest, keep_going, was_ok, rt@, false));
                        }
                        return false;
                    }
                },
            }
        }
        proof {
            assert forall|fin: RuntimeView, res: bool| #[trigger] guarded_ok(rt@, lines@.skip(i + 1), keep_going, ok, fin, res)
                implies guarded_ok(old(rt)@, lines@, keep_going, true, fin, res) by {
                assert(guarded_ok(before, rest, keep_going, was_ok, fin, res));
            }
        }
        i += 1;
    }
    proof {
        assert(lines@.skip(i as int) =~= Seq::<String>::empty());
        assert(guarded_ok(rt@, lines@.skip(i as int), keep_going, ok, rt@, ok));
    }
    ok
}

/// Whether running the blocks `nodes` from position `i` on, from the
/// stores `rt` and with the flags so far, may end in the stores `fin` with
/// the result `r`: a `try` block runs as `guarded_ok` says, stopping at its
/// first failure, which sets `failed`; a `catch` block runs (to its end)
/// only once a `try` block has failed; a `finally` block always runs (to its
/// end); `;` is passed over and any other node is a type error. At the end
/// the outcome carries the flags, or the statement fails where it held no
/// block.
pub open spec fn try_run(
    rt: RuntimeView,
    nodes: Seq<ASTNode>,
    i: int,
    failed: bool,
    catch_ran: bool,
    finally_ran: bool,
    any: bool,
    fin: RuntimeView,
    r: Result<TryOutcome, CompileError>,
) -> bool
    decreases nodes.len() - i,
{
    if i < 0 || i >= nodes.len() {
        fin == rt && if any {
            (r matches Ok(o) && o.try_failed == failed && o.catch_ran == catch_ran && o.finally_ran == finally_ran)
        } else {
            (r matches Err(e) && kind_of(e) == ErrorKind::Syntax)
        }
    } else {
        match nodes[i] {
            ASTNode::Try(b) => exists|mid: RuntimeView, ok: bool| #[trigger] guarded_ok(rt, b@, false, true, mid, ok)
                && try_run(mid, nodes, i + 1, failed || !ok, catch_ran, finally_ran, true, fin, r),
            ASTNode::Catch(b) => if failed {
                exists|mid: RuntimeView, ok: bool| #[trigger] guarded_ok(rt, b@, true, true, mid, ok) && try_run(
                    mid,
                    nodes,
                    i + 1,
                    failed,
                    true,
                    finally_ran,
                    true,
                    fin,
                    r,
                )
            } else {
                try_run(rt, nodes, i + 1, failed, catch_ran, finally_ran, true, fin, r)
            },
            ASTNode::Finally(b) => exists|mid: RuntimeView, ok: bool| #[trigger] guarded_ok(rt, b@, true, true, mid, ok)
                && try_run(mid, nodes, i + 1, failed, catch_ran, true, true, fin, r),
            ASTNode::SemiColon => try_run(rt, nodes, i + 1, failed, catch_ran, finally_ran, any, fin, r),
            _ => (r matches Err(e) && kind_of(e) == ErrorKind::Type && fin == rt),
        }
    }
}

/// Runs a `try` block, stopping at its first failing statement, then its
/// `catch` block only if the `try` block failed, then its `finally` block in
/// any case. A failure inside a block is absorbed: the statement succeeds
/// once it holds any block, and fails on any node that is no block.
pub fn compile_try_catch_finally<H: Natives>(
    rt: &mut Runtime,
    h: &mut H,
    nodes: &[ASTNode],
    depth: u32,
) -> (r: Result<TryOutcome, CompileError>)
    ensures
        r matches Ok(o) ==> (o.catch_ran ==> o.try_failed),
        r matches Ok(o) ==> (o.finally_ran <==> exists|k: int| 0 <= k < nodes@.len() && #[trigger] nodes@[k] is Finally),
        r matches Ok(o) ==> (o.try_failed ==> exists|k: int| 0 <= k < nodes@.len() && #[trigger] nodes@[k] is Try),
        depth == 0 ==> (r matches Err(e) && kind_of(e) == ErrorKind::Limit && final(rt)@ == old(rt)@),
        (forall|k: int| 0 <= k < nodes@.len() ==> #[trigger] nodes@[k] is SemiColon) ==> r is Err,
        depth > 0 && (forall|k: int| 0 <= k < nodes@.len() ==> try_part(#[trigger] nodes@[k])) && (exists|k: int|
            0 <= k < nodes@.len() && !(#[trigger] nodes@[k] is SemiColon)) ==> r is Ok,
        try_then_catch(nodes@) ==> (r matches Ok(o) ==> o.catch_ran == o.try_failed),
        depth > 0 ==> try_run(old(rt)@, nodes@, 0, false, false, false, false, final(rt)@, r),
    decreases depth, 5int,
{
    if depth == 0 {
        return Err(error_of(5, "blocks nest too deeply"));
    }
    let mut outcome = TryOutcome { try_failed: false, catch_ran: false, finally_ran: false };
    let mut any = false;
    let mut i: usize = 0;
    while i < nodes.len()
        invariant
            i <= nodes@.len(),
            depth > 0,
            outcome.catch_ran ==> outcome.try_failed,
            outcome.finally_ran <==> exists|k: int| 0 <= k < i && #[trigger] nodes@[k] is Finally,
            outcome.try_failed ==> exists|k: int| 0 <= k < i && #[trigger] nodes@[k] is Try,
            any <==> exists|k: int| 0 <= k < i && !(#[trigger] nodes@[k] is SemiColon),
            forall|k: int| 0 <= k < i ==> try_part(#[trigger] nodes@[k]),
            try_then_catch(nodes@) ==> (i >= 2 ==> outcome.catch_ran == outcome.try_failed) && (i <= 1
                ==> !outcome.catch_ran),
            forall|fin: RuntimeView, res: Result<TryOutcome, CompileError>| #[trigger] try_run(
                rt@,
                nodes@,
                i as int,
                outcome.try_failed,
                outcome.catch_ran,
                outcome.finally_ran,
                any,
                fin,
                res,
            ) ==> try_run(old(rt)@, nodes@, 0, false, false, false, false, fin, res),
        decreases nodes@.len() - i,
    {
        let ghost before = rt@;
        let ghost (f0, c0, d0, a0) = (outcome.try_failed, outcome.catch_ran, outcome.finally_ran, any);
        match &nodes[i] {
            ASTNode::Try(block) => {
                let ok = run_guarded(rt, h, block, false, depth - 1);
                outcome.try_failed = outcome.try_failed || !ok;
                any = true;
            },
            ASTNode::Catch(block) => {
                if outcome.try_failed {
                    run_guarded(rt, h, block, true, depth - 1);
                    outcome.catch_ran = true;
                }
                any = true;
            },
            ASTNode::Finally(block) => {
                run_guarded(rt, h, block, true, depth - 1);
                outcome.finally_ran = true;
                any = true;
            },
            ASTNode::SemiColon => {},
            _ => {
                let e = error_of(1, "only try, catch and finally blocks belong here");
                proof {
                    assert(try_run(before, nodes@, i as int, f0, c0, d0, a0, rt@, Err::<TryOutcome, CompileError>(e)));
                }
                return Err(e);
            },
        }
        i += 1;
        proof {
            assert forall|fin: RuntimeView, res: Result<TryOutcome, CompileError>| #[trigger] try_run(
                rt@,
                nodes@,
                i as int,
                outcome.try_failed,
                outcome.catch_ran,
                outcome.finally_ran,
                any,
                fin,
                res,
            ) implies try_run(old(rt)@, nodes@, 0, false, false, false, false, fin, res) by {
                assert(try_run(before, nodes@, i - 1, f0, c0, d0, a0, fin, res));
            }
        }
    }
    if !any {
        let e = error_of(0, "no try, catch or finally block");
        proof {
            assert(try_run(rt@, nodes@, i as int, outcome.try_failed, outcome.catch_ran, outcome.finally_ran, any, rt@, Err::<TryOutcome, CompileError>(e)));
        }
        return Err(e);
    }
    proof {
        assert(try_run(rt@, nodes@, i as int, outcome.try_failed, outcome.catch_ran, outcome.finally_ran, any, rt@, Ok::<TryOutcome, CompileError>(outcome)));
    }
    Ok(outcome)
}

/// Whether running `while (cond) { body }` from the stores `rt`, with at
/// most `left` more passes, may end in the stores `fin` with the result `r`.
/// Before each pass the condition is tokenized and evaluated: where it is a
/// simple expression, an error stops the loop, a value other than 1 ends it
/// with success, and 1 runs the body as `block_ok` says (an error there
/// stops the loop) and goes on; past the last pass the loop fails. Where the
/// condition is no simple expression, nothing more is claimed.
pub open spec fn while_ok(
    rt: RuntimeView,
    cond: Seq<char>,
    body: Seq<String>,
    left: nat,
    fin: RuntimeView,
    r: Result<bool, CompileError>,
) -> bool
    decreases left,
{
    exists|cn: Seq<ASTNode>| #[trigger] is_ast_of(cond, cn) && match simple_from(rt.variables, cn, 0, None, None, None) {
        Some(parts) => match simple_outcome(parts) {
            Some(Err(k)) => (r matches Err(e) && kind_of(e) == k && fin == rt),
            Some(Ok(v)) => if v != ValueView::Int(1) {
                r == Ok::<bool, CompileError>(true) && fin == rt
            } else if left == 0 {
                (r matches Err(e) && kind_of(e) == ErrorKind::Limit)
            } else {
                (exists|mid: RuntimeView| #[trigger] block_ok(rt, body, mid, Ok::<(), CompileError>(())) && while_ok(
                    mid,
                    cond,
                    body,
                    (left - 1) as nat,
                    fin,
                    r,
                )) || (r matches Err(e) && block_ok(rt, body, fin, Err::<(), CompileError>(e)))
            },
            None => true,
        },
        None => true,
    }
}

/// Whether the condition text `c` fails in the stores `rt`: for its nodes,
/// where they form a simple expression, the condition is false.
pub open spec fn condition_fails_in(rt: RuntimeView, c: Seq<char>) -> bool {
    condition_text_ok(rt, rt, c, Ok::<bool, CompileError>(false))
}

/// Runs a `while` loop: the condition text is tokenized and evaluated
/// before each pass, and the body runs while it holds, as `while_ok` says.
/// A loop has at most `MAX_ITERATIONS` passes (every loop here must be shown
/// to end), and fails past them. The loop ends
/// without error only where the condition fails in the final stores; a
/// condition that fails at once leaves the stores as they were.
pub fn compile_while_loop<H: Natives>(
    rt: &mut Runtime,
    h: &mut H,
    condition: &String,
    body: &Vec<String>,
    depth: u32,
) -> (r: Result<bool, CompileError>)
    ensures
        depth == 0 ==> (r matches Err(e) && kind_of(e) == ErrorKind::Limit && final(rt)@ == old(rt)@),
        r matches Ok(b) ==> b,
        r is Ok ==> condition_fails_in(final(rt)@, condition@),
        depth > 0 && condition_false(old(rt)@, condition@) ==> r == Ok::<bool, CompileError>(true) && final(rt)@
            == old(rt)@,
        depth > 0 ==> while_ok(old(rt)@, condition@, body@, MAX_ITERATIONS as nat, final(rt)@, r),
    decreases depth, 5int,
{
    if depth == 0 {
        return Err(error_of(5, "loops nest too deeply"));
    }
    let mut passes: u32 = 0;
    loop
        invariant
            depth > 0,
            passes <= MAX_ITERATIONS,
            passes == 0 ==> rt@ == old(rt)@,
            condition_false(old(rt)@, condition@) ==> passes == 0,
            forall|fin: RuntimeView, res: Result<bool, CompileError>| #[trigger] while_ok(
                rt@,
                condition@,
                body@,
                (MAX_ITERATIONS - passes) as nat,
                fin,
                res,
            ) ==> while_ok(old(rt)@, condition@, body@, MAX_ITERATIONS as nat, fin, res),
        decreases MAX_ITERATIONS - passes,
    {
        let nodes = string_to_ast(condition.clone());
        let ghost before = rt@;
        let ghost left = (MAX_ITERATIONS - passes) as nat;
        let res = compile_conditional_statement(rt, h, nodes.as_slice(), depth);
        proof {
            assert(is_ast_of(condition@, nodes@));
            if passes == 0 && condition_false(old(rt)@, condition@) {
                let parts = simple_from(before.variables, nodes@, 0, None, None, None)->0;
                assert(simple_value(parts) is Some);
                assert(res == Ok::<bool, CompileError>(false));
                assert(rt@ == old(rt)@);
            }
        }
        let holds = match res {
            Ok(b) => b,
            Err(e) => {
                proof {
                    assert(while_ok(before, condition@, body@, left, rt@, Err::<bool, CompileError>(e)));
                }
                return Err(e);
            },
        };
        if !holds {
            proof {
                assert(is_ast_of(condition@, nodes@));
                if rt@ != before {
                    lemma_call_not_simple(rt@.variables, nodes@, 0, None, None, None);
                }
                assert(condition_text_ok(rt@, rt@, condition@, Ok::<bool, CompileError>(false)));
                assert(while_ok(before, condition@, body@, left, rt@, Ok::<bool, CompileError>(true)));
            }
            return Ok(true);
        }
        if passes >= MAX_ITERATIONS {
            let e = error_of(5, "too many passes through a loop");
            proof {
                assert(while_ok(before, condition@, body@, left, rt@, Err::<bool, CompileError>(e)));
            }
            return Err(e);
        }
        let ghost evaluated = rt@;
        let rb = run_block(rt, h, body, depth - 1);
        assert(block_ok(evaluated, body@, rt@, rb));
        match rb {
            Ok(u) => {
                assert(u == ());
                assert(rb == Ok::<(), CompileError>(()));
                assert(block_ok(evaluated, body@, rt@, Ok::<(), CompileError>(())));
            },
            Err(e) => {
                proof {
                    assert(while_ok(before, condition@, body@, left, rt@, Err::<bool, CompileError>(e)));
                }
                return Err(e);
            },
        }
        passes += 1;
        proof {
            assert forall|fin: RuntimeView, res2: Result<bool, CompileError>| #[trigger] while_ok(
                rt@,
                condition@,
                body@,
                (MAX_ITERATIONS - passes) as nat,
                fin,
                res2,
            ) implies while_ok(old(rt)@, condition@, body@, MAX_ITERATIONS as nat, fin, res2) by {
                assert(while_ok(before, condition@, body@, left, fin, res2));
            }
        }
    }
}

/// Whether running `for` with the variable `var` up to `end` over `body`
/// from the stores `rt`, with at most `left` more passes, may end in the
/// stores `fin` with the result `r`. Before each pass the last variable
/// named `var` is read: its absence is a lookup failure and a value that is
/// no integer a type error; a value past `end` ends the loop with success.
/// Otherwise the body runs as `block_ok` says (an error there stops the
/// loop), the variable is read again and goes up by one (at the largest
/// integer the loop ends instead), and the next pass follows; past the last
/// pass the loop fails.
pub open spec fn for_ok(
    rt: RuntimeView,
    var: Seq<char>,
    end: i32,
    body: Seq<String>,
    left: nat,
    fin: RuntimeView,
    r: Result<bool, CompileError>,
) -> bool
    decreases left,
{
    let k = last_variable(rt.variables, var);
    if k < 0 {
        (r matches Err(e) && kind_of(e) == ErrorKind::Lookup && fin == rt)
    } else {
        match rt.variables[k].value {
            ValueView::Int(c) => if c > end {
                r == Ok::<bool, CompileError>(true) && fin == rt
            } else if left == 0 {
                (r matches Err(e) && kind_of(e) == ErrorKind::Limit && fin == rt)
            } else {
                (exists|mid: RuntimeView| #[trigger] block_ok(rt, body, mid, Ok::<(), CompileError>(())) && {
                    let k2 = last_variable(mid.variables, var);
                    if k2 < 0 {
                        (r matches Err(e) && kind_of(e) == ErrorKind::Lookup && fin == mid)
                    } else {
                        match mid.variables[k2].value {
                            ValueView::Int(c2) => if c2 == i32::MAX {
                                r == Ok::<bool, CompileError>(true) && fin == mid
                            } else {
                                for_ok(
                                    RuntimeView {
                                        variables: mid.variables.update(
                                            k2,
                                            VariableView {
                                                name: var,
                                                var_type: mid.variables[k2].var_type,
                                                value: ValueView::Int((c2 + 1) as i32),
                                            },
                                        ),
                                        ..mid
                                    },
                                    var,
                                    end,
                                    body,
                                    (left - 1) as nat,
                                    fin,
                                    r,
                                )
                            },
                            _ => (r matches Err(e) && kind_of(e) == ErrorKind::Type && fin == mid),
                        }
                    }
                }) || (r matches Err(e) && block_ok(rt, body, fin, Err::<(), CompileError>(e)))
            },
            _ => (r matches Err(e) && kind_of(e) == ErrorKind::Type && fin == rt),
        }
    }
}

/// The integer variable that a `for` loop counts with.
pub open spec fn loop_variable(name: Seq<char>, value: int) -> VariableView {
    VariableView { name, var_type: ValueType::Int, value: ValueView::Int(value as i32) }
}

/// The value of the last variable named `name`, if there is one.
pub open spec fn value_named(vars: Seq<VariableView>, name: Seq<char>) -> Option<ValueView> {
    let k = crate::store::last_variable(vars, name);
    if 0 <= k < vars.len() {
        Some(vars[k].value)
    } else {
        None
    }
}

/// Runs a `for` loop: the variable is set to the start bound (and created
/// as an integer if absent), and the body runs while its value is at most
/// the end bound, the variable going up by one after each pass, as `for_ok`
/// says. A loop has at most `MAX_ITERATIONS` passes, and fails past them. The loop
/// ends without error only once the variable is past the end bound (or at
/// the largest integer).
pub fn compile_for_loop<H: Natives>(
    rt: &mut Runtime,
    h: &mut H,
    variable: &String,
    start: i32,
    end: i32,
    body: &Vec<String>,
    depth: u32,
) -> (r: Result<bool, CompileError>)
    ensures
        r is Ok ==> (value_named(final(rt)@.variables, variable@) matches Some(ValueView::Int(c)) && (c > end
            || c == i32::MAX)),
        depth == 0 ==> (r matches Err(e) && kind_of(e) == ErrorKind::Limit),
        depth > 0 && start > end ==> r == Ok::<bool, CompileError>(true) && final(rt)@.variables == declare_in(
            old(rt)@.variables,
            loop_variable(variable@, start as int),
        ) && final(rt)@.arrays == old(rt)@.arrays && final(rt)@.dictionaries == old(rt)@.dictionaries
            && final(rt)@.functions == old(rt)@.functions,
        depth > 0 && start <= end && end < i32::MAX && end - start < MAX_ITERATIONS && (forall|k: int|
            0 <= k < body@.len() ==> crate::node::blank(#[trigger] body@[k]@)) ==> r == Ok::<bool, CompileError>(true)
            && final(rt)@.variables == declare_in(old(rt)@.variables, loop_variable(variable@, end + 1))
            && final(rt)@.arrays == old(rt)@.arrays && final(rt)@.dictionaries == old(rt)@.dictionaries
            && final(rt)@.functions == old(rt)@.functions,
        depth > 0 ==> for_ok(
            RuntimeView {
                variables: declare_in(old(rt)@.variables, loop_variable(variable@, start as int)),
                ..old(rt)@
            },
            variable@,
            end,
            body@,
            MAX_ITERATIONS as nat,
            final(rt)@,
            r,
        ),
    decreases depth, 5int,
{
    if depth == 0 {
        return Err(error_of(5, "loops nest too deeply"));
    }
    let ghost blank_body = forall|k: int| 0 <= k < body@.len() ==> crate::node::blank(#[trigger] body@[k]@);
    let ghost tracked_run = start > end || (start <= end && end < i32::MAX && end - start < MAX_ITERATIONS && blank_body);
    rt.declare_variable(Variable { name: variable.clone(), var_type: ValueType::Int, value: Value::Int(start) });
    let ghost init = rt@;
    assert(init == (RuntimeView {
        variables: declare_in(old(rt)@.variables, loop_variable(variable@, start as int)),
        ..old(rt)@
    }));
    let mut passes: u32 = 0;
    loop
        invariant
            depth > 0,
            passes <= MAX_ITERATIONS,
            init == (RuntimeView {
                variables: declare_in(old(rt)@.variables, loop_variable(variable@, start as int)),
                ..old(rt)@
            }),
            forall|fin: RuntimeView, res: Result<bool, CompileError>| #[trigger] for_ok(
                rt@,
                variable@,
                end,
                body@,
                (MAX_ITERATIONS - passes) as nat,
                fin,
                res,
            ) ==> for_ok(init, variable@, end, body@, MAX_ITERATIONS as nat, fin, res),
            blank_body == forall|k: int| 0 <= k < body@.len() ==> crate::node::blank(#[trigger] body@[k]@),
            tracked_run == (start > end || (start <= end && end < i32::MAX && end - start < MAX_ITERATIONS
                && blank_body)),
            tracked_run ==> rt@.variables == declare_in(old(rt)@.variables, loop_variable(variable@, start as int + passes as int))
                && rt@.arrays == old(rt)@.arrays && rt@.dictionaries == old(rt)@.dictionaries
                && rt@.functions == old(rt)@.functions && (start <= end ==> start as int + passes as int <= end as int + 1) && (
                start > end ==> passes == 0),
        decreases MAX_ITERATIONS - passes,
    {
        let ghost before = rt@;
        let ghost left = (MAX_ITERATIONS - passes) as nat;
        proof {
            if tracked_run {
                crate::store::lemma_redeclare(old(rt)@.variables, loop_variable(variable@, start as int + passes as int), loop_variable(variable@, start as int + passes as int));
                crate::laws::lemma_declaration_leaves_one_entry(old(rt)@.variables, loop_variable(variable@, start as int + passes as int));
            }
        }
        let k = match rt.find_variable(variable.as_str()) {
            Some(k) => k,
            None => {
                let e = error_of(2, "the loop variable is gone");
                assert(for_ok(before, variable@, end, body@, left, rt@, Err::<bool, CompileError>(e)));
                return Err(e);
            },
        };
        proof {
            crate::store::lemma_last_variable(rt@.variables, variable@);
            if tracked_run {
                let v = loop_variable(variable@, start as int + passes as int);
                assert(v.name == variable@);
                assert(declare_in(old(rt)@.variables, v)[last_variable(declare_in(old(rt)@.variables, v), v.name)] == v);
                assert(rt@.variables[k as int] == v);
                assert(rt.variables@[k as int]@ == v);
            }
        }
        let current = match &rt.variables[k].value {
            Value::Int(c) => *c,
            _ => {
                let e = error_of(1, "the loop variable is no integer");
                assert(for_ok(before, variable@, end, body@, left, rt@, Err::<bool, CompileError>(e)));
                return Err(e);
            },
        };
        assert(value_named(rt@.variables, variable@) == Some(ValueView::Int(current)));
        if current > end {
            assert(for_ok(before, variable@, end, body@, left, rt@, Ok::<bool, CompileError>(true)));
            return Ok(true);
        }
        if passes >= MAX_ITERATIONS {
            let e = error_of(5, "too many passes through a loop");
            assert(for_ok(before, variable@, end, body@, left, rt@, Err::<bool, CompileError>(e)));
            return Err(e);
        }
        let rb = run_block(rt, h, body, depth - 1);
        match rb {
            Ok(u) => {
                assert(u == ());
                assert(block_ok(before, body@, rt@, Ok::<(), CompileError>(())));
            },
            Err(e) => {
                proof {
                    assert(for_ok(before, variable@, end, body@, left, rt@, Err::<bool, CompileError>(e)));
                }
                return Err(e);
            },
        }
        let ghost mid = rt@;
        match rt.find_variable(variable.as_str()) {
            Some(k) => {
                proof {
                    crate::store::lemma_last_variable(rt@.variables, variable@);
                }
                let next = match &rt.variables[k].value {
                    Value::Int(c) => {
                        if *c == 2147483647 {
                            assert(value_named(rt@.variables, variable@) == Some(ValueView::Int(*c)));
                            assert(for_ok(before, variable@, end, body@, left, rt@, Ok::<bool, CompileError>(true)));
                            return Ok(true);
                        }
                        *c + 1
                    },
                    _ => {
                        let e = error_of(1, "the loop variable is no integer");
                        assert(for_ok(before, variable@, end, body@, left, rt@, Err::<bool, CompileError>(e)));
                        return Err(e);
                    },
                };
                let t = rt.variables[k].var_type;
                let name = variable.clone();
                proof {
                    if tracked_run {
                        crate::store::lemma_redeclare(old(rt)@.variables, loop_variable(variable@, start as int + passes as int), loop_variable(variable@, start as int + passes as int + 1));
                        crate::laws::lemma_declaration_leaves_one_entry(old(rt)@.variables, loop_variable(variable@, start as int + passes as int));
                        assert(t == ValueType::Int);
                    }
                }
                rt.variables.set(k, Variable { name, var_type: t, value: Value::Int(next) });
                assert(rt@ == (RuntimeView {
                    variables: mid.variables.update(
                        k as int,
                        VariableView { name: variable@, var_type: mid.variables[k as int].var_type, value: ValueView::Int(next) },
                    ),
                    ..mid
                })) by {
                    assert(rt@.variables =~= mid.variables.update(
                        k as int,
                        VariableView { name: variable@, var_type: mid.variables[k as int].var_type, value: ValueView::Int(next) },
                    ));
                }
                proof {
                    if tracked_run {
                        assert(rt@.variables =~= declare_in(old(rt)@.variables, loop_variable(variable@, start as int + passes as int + 1)));
                    }
                }
            },
            None => {
                let e = error_of(2, "the loop variable is gone");
                assert(for_ok(before, variable@, end, body@, left, rt@, Err::<bool, CompileError>(e)));
                return Err(e);
            },
        }
        passes += 1;
        proof {
            assert forall|fin: RuntimeView, res2: Result<bool, CompileError>| #[trigger] for_ok(
                rt@,
                variable@,
                end,
                body@,
                (MAX_ITERATIONS - passes) as nat,
                fin,
                res2,
            ) implies for_ok(init, variable@, end, body@, MAX_ITERATIONS as nat, fin, res2) by {
                assert(for_ok(before, variable@, end, body@, left, fin, res2));
            }
        }
    }
}

/// The name, type name and value of a declaration `let name: type =
/// literal;`, given as its nodes.
pub open spec fn literal_declaration(nodes: Seq<ASTNode>) -> Option<(Seq<char>, Seq<char>, ValueView)> {
    if nodes.len() >= 4 && lone_literal(nodes, 3) && nodes[2] is AssignmentOperator {
        match (nodes[0], nodes[1]) {
            (ASTNode::Variable(n), ASTNode::VarTypeAssignment(t)) => Some((n@, t@, literal_value(nodes[3])->0)),
            _ => None,
        }
    } else {
        None
    }
}

/// The name and value of an assignment `name = literal;`, given as its
/// nodes.
pub open spec fn literal_assignment(nodes: Seq<ASTNode>) -> Option<(Seq<char>, ValueView)> {
    if nodes.len() >= 3 && lone_literal(nodes, 2) && nodes[1] is AssignmentOperator {
        match nodes[0] {
            ASTNode::VariableCall(n) => Some((n@, literal_value(nodes[2])->0)),
            _ => None,
        }
    } else {
        None
    }
}

/// Whether assigning `v` to the last variable named `n` of the stores
/// `before` leaves the stores `after` and gives `r`: the value is converted
/// to the variable's type; an unknown name is a lookup failure and a value
/// that cannot take the type a type error, both changing nothing.
pub open spec fn assigned(before: RuntimeView, after: RuntimeView, n: Seq<char>, v: ValueView, r: Result<bool, CompileError>) -> bool {
    let k = last_variable(before.variables, n);
    if k < 0 {
        (r matches Err(e) && kind_of(e) == ErrorKind::Lookup && after == before)
    } else {
        match coerced(v, before.variables[k].var_type) {
            Some(cv) => r == Ok::<bool, CompileError>(true) && after.variables == before.variables.update(
                k,
                VariableView { name: n, var_type: before.variables[k].var_type, value: cv },
            ) && after.arrays == before.arrays && after.dictionaries == before.dictionaries
                && after.functions == before.functions,
            None => (r matches Err(e) && kind_of(e) == ErrorKind::Type && after == before),
        }
    }
}

/// What a simple expression gives without the host: its value, or the kind
/// of its error; `None` where the host would decide.
pub open spec fn simple_outcome(parts: (Option<ValueView>, Option<ValueView>, Option<Seq<char>>)) -> Option<Result<ValueView, ErrorKind>> {
    let (f, s, o) = parts;
    match o {
        None => match f {
            Some(v) => Some(Ok(v)),
            None => Some(Err(ErrorKind::Syntax)),
        },
        Some(op) => {
            let a = match f {
                Some(v) => v,
                None => ValueView::Null,
            };
            let b = match s {
                Some(v) => v,
                None => ValueView::Null,
            };
            match crate::operator::binary(a, op, b) {
                crate::operator::Outcome::Value(v) => Some(Ok(v)),
                crate::operator::Outcome::Fault(k) => Some(Err(k)),
                crate::operator::Outcome::Native => None,
            }
        },
    }
}

/// The stores after assigning `v` to the last variable named `n`, or the
/// kind of the error.
pub open spec fn assign_effect(rt: RuntimeView, n: Seq<char>, v: ValueView) -> Result<RuntimeView, ErrorKind> {
    let k = last_variable(rt.variables, n);
    if k < 0 {
        Err(ErrorKind::Lookup)
    } else {
        match coerced(v, rt.variables[k].var_type) {
            Some(cv) => Ok(RuntimeView {
                variables: rt.variables.update(
                    k,
                    VariableView { name: n, var_type: rt.variables[k].var_type, value: cv },
                ),
                ..rt
            }),
            None => Err(ErrorKind::Type),
        }
    }
}

/// The stores after declaring `n` of type `t` with `v`, or the kind of the
/// error.
pub open spec fn declare_effect(rt: RuntimeView, n: Seq<char>, t: Seq<char>, v: ValueView) -> Result<RuntimeView, ErrorKind> {
    match declared_variables(rt.variables, n, t, v) {
        Some(vars) => Ok(RuntimeView { variables: vars, ..rt }),
        None => Err(ErrorKind::Type),
    }
}

/// What the statement `nodes` does to the stores `rt`, where the library
/// states it: a declaration or an assignment of a simple expression, an
/// empty statement, or one that no compiler takes. `None` for the others.
pub open spec fn stmt_effect(rt: RuntimeView, nodes: Seq<ASTNode>) -> Option<Result<RuntimeView, ErrorKind>> {
    if nodes.len() == 0 {
        Some(Err(ErrorKind::Syntax))
    } else if !routable(nodes[0]) {
        Some(Err(ErrorKind::Routing))
    } else {
        match nodes[0] {
            ASTNode::Variable(n) => if nodes.len() >= 3 && nodes[1] is VarTypeAssignment && nodes[2] is AssignmentOperator {
                match simple_from(rt.variables, nodes, 3, None, None, None) {
                    Some(parts) => match simple_outcome(parts) {
                        Some(Ok(v)) => Some(declare_effect(rt, n@, nodes[1]->VarTypeAssignment_0@, v)),
                        Some(Err(k)) => Some(Err(k)),
                        None => None,
                    },
                    None => None,
                }
            } else {
                None
            },
            ASTNode::VariableCall(n) => if nodes.len() >= 2 && nodes[1] is AssignmentOperator {
                match simple_from(rt.variables, nodes, 2, None, None, None) {
                    Some(parts) => match simple_outcome(parts) {
                        Some(Ok(v)) => Some(assign_effect(rt, n@, v)),
                        Some(Err(k)) => Some(Err(k)),
                        None => None,
                    },
                    None => None,
                }
            } else {
                None
            },
            _ => None,
        }
    }
}

/// Whether the result `r` and the stores `after` are what `effect` says,
/// from the stores `before`.
pub open spec fn effect_holds<T>(effect: Result<RuntimeView, ErrorKind>, before: RuntimeView, after: RuntimeView, r: Result<T, CompileError>) -> bool {
    match effect {
        Ok(v) => r is Ok && after == v,
        Err(k) => (r matches Err(e) && kind_of(e) == k && after == before),
    }
}

/// Whether a statement that starts with `n` has a compiler.
pub open spec fn routable(n: ASTNode) -> bool {
    match n {
        ASTNode::Variable(_) | ASTNode::VariableCall(_) | ASTNode::Collection { .. }
        | ASTNode::Function { .. } | ASTNode::FunctionCall(_) | ASTNode::Dot { .. } | ASTNode::If(_)
        | ASTNode::Elif(_) | ASTNode::Else | ASTNode::Try(_) | ASTNode::Catch(_) | ASTNode::Finally(_)
        | ASTNode::For { .. } | ASTNode::While { .. } | ASTNode::Return(_) => true,
        _ => false,
    }
}

/// The kind of error that a refused collection declaration gives.
pub open spec fn fault_kind(f: crate::collection::Fault) -> ErrorKind {
    match f {
        crate::collection::Fault::Syntax => ErrorKind::Syntax,
        crate::collection::Fault::Type => ErrorKind::Type,
    }
}

fn from_collection_error(e: CollectionError) -> (r: CompileError)
    ensures
        e is SyntaxError ==> kind_of(r) == ErrorKind::Syntax,
        e is InvalidType ==> kind_of(r) == ErrorKind::Type,
{
    match e {
        CollectionError::SyntaxError(m) => CompileError::SyntaxError(m),
        CollectionError::InvalidType(m) => CompileError::InvalidType(m),
    }
}

/// Dispatches a statement on its first node: a declaration or assignment
/// to the variable compiler, a collection, a function declaration, a call,
/// a conditional, a loop, or a `try` block to theirs. Any other first node
/// is a routing failure, an empty statement a syntax error; neither changes
/// a store.
pub fn route_to_parser<H: Natives>(rt: &mut Runtime, h: &mut H, nodes: &[ASTNode], depth: u32) -> (r: Result<bool, CompileError>)
    ensures
        nodes@.len() == 0 ==> (r matches Err(e) && kind_of(e) == ErrorKind::Syntax && final(rt)@ == old(rt)@),
        nodes@.len() > 0 && !routable(nodes@[0]) ==> (r matches Err(e) && kind_of(e) == ErrorKind::Routing
            && final(rt)@ == old(rt)@),
        literal_declaration(nodes@) matches Some((n, t, v)) ==> match declared_variables(
            old(rt)@.variables,
            n,
            t,
            v,
        ) {
            Some(vars) => r == Ok::<bool, CompileError>(true) && final(rt)@.variables == vars
                && final(rt)@.arrays == old(rt)@.arrays && final(rt)@.dictionaries == old(rt)@.dictionaries
                && final(rt)@.functions == old(rt)@.functions,
            None => (r matches Err(e) && kind_of(e) == ErrorKind::Type && final(rt)@ == old(rt)@),
        },
        literal_assignment(nodes@) matches Some((n, v)) ==> assigned(old(rt)@, final(rt)@, n, v, r),
        stmt_effect(old(rt)@, nodes@) matches Some(eff) ==> effect_holds(eff, old(rt)@, final(rt)@, r),
        nodes@.len() > 0 && nodes@[0] is Collection ==> match crate::collection::collection_declared(nodes@) {
            Ok(crate::collection::Declaration::Array(a)) => r is Ok && final(rt)@ == (RuntimeView {
                arrays: old(rt)@.arrays.push(a),
                ..old(rt)@
            }),
            Ok(crate::collection::Declaration::Dictionary(d)) => r is Ok && final(rt)@ == (RuntimeView {
                dictionaries: old(rt)@.dictionaries.push(d),
                ..old(rt)@
            }),
            Err(f) => (r matches Err(e) && kind_of(e) == fault_kind(f) && final(rt)@ == old(rt)@),
        },
        nodes@.len() > 0 ==> (nodes@[0] matches ASTNode::Function { name, return_type, params, body }
            ==> r is Ok && final(rt)@.functions == old(rt)@.functions.push(
            FunctionView {
                name: name@,
                return_type: return_type@,
                params: crate::token::param_texts(params@),
                defaults: final(rt)@.functions.last().defaults,
                body: crate::token::texts(body@),
            },
        ) && defaults_ok(crate::token::param_texts(params@), final(rt)@.functions.last().defaults)
            && final(rt)@.variables == old(rt)@.variables && final(rt)@.arrays == old(rt)@.arrays
            && final(rt)@.dictionaries == old(rt)@.dictionaries),
        depth > 0 && nodes@.len() > 0 ==> (nodes@[0] matches ASTNode::For { variable, start, end, body }
            ==> for_ok(
            RuntimeView {
                variables: declare_in(old(rt)@.variables, loop_variable(variable@, start as int)),
                ..old(rt)@
            },
            variable@,
            end,
            body@,
            MAX_ITERATIONS as nat,
            final(rt)@,
            r,
        )),
        depth > 0 && nodes@.len() > 0 ==> (nodes@[0] matches ASTNode::While { condition, body } ==> while_ok(
            old(rt)@,
            condition@,
            body@,
            MAX_ITERATIONS as nat,
            final(rt)@,
            r,
        )),
        depth > 0 && nodes@.len() > 0 && (nodes@[0] is Try || nodes@[0] is Catch || nodes@[0] is Finally) ==> exists|
            t: Result<TryOutcome, CompileError>,
        | #[trigger] try_run(old(rt)@, nodes@, 0, false, false, false, false, final(rt)@, t) && (t is Ok ==> r
            == Ok::<bool, CompileError>(true)) && (t matches Err(e) ==> r == Err::<bool, CompileError>(e)),
    decreases depth, 6int,
{
    if nodes.len() == 0 {
        return Err(error_of(0, "empty statement"));
    }
    match &nodes[0] {
        ASTNode::Variable(name) => {
            if nodes.len() < 3 {
                return Err(error_of(0, "a declaration needs a type and a value"));
            }
            let declared_type = match &nodes[1] {
                ASTNode::VarTypeAssignment(t) => t.clone(),
                _ => {
                    return Err(error_of(0, "a declaration needs a type"));
                },
            };
            match &nodes[2] {
                ASTNode::AssignmentOperator => {},
                _ => {
                    return Err(error_of(0, "a declaration needs a value"));
                },
            }
            let value = evaluate(rt, h, nodes, 3, depth)?;
            declare_variable(rt, name, &declared_type, value)?;
            Ok(true)
        },
        ASTNode::VariableCall(name) => {
            let is_assignment = nodes.len() >= 2 && matches!(&nodes[1], ASTNode::AssignmentOperator);
            if !is_assignment {
                evaluate(rt, h, nodes, 0, depth)?;
                return Ok(true);
            }
            let value = evaluate(rt, h, nodes, 2, depth)?;
            match rt.find_variable(name.as_str()) {
                Some(k) => {
                    proof {
                        crate::store::lemma_last_variable(rt@.variables, name@);
                    }
                    let t = rt.variables[k].var_type;
                    match coerce(value, t) {
                        Some(v) => {
                            let ghost before = rt@;
                            let var = Variable { name: name.clone(), var_type: t, value: v };
                            rt.variables.set(k, var);
                            assert(rt@.variables =~= before.variables.update(k as int, var@));
                            Ok(true)
                        },
                        None => Err(error_of(1, "the value does not fit the variable's type")),
                    }
                },
                None => Err(error_of(2, "unknown variable")),
            }
        },
        ASTNode::Collection { .. } => match parse_collection_declaration(rt, nodes) {
            Ok(()) => Ok(true),
            Err(e) => Err(from_collection_error(e)),
        },
        ASTNode::Function { .. } => parse_function_declaration(rt, nodes),
        ASTNode::FunctionCall(_) | ASTNode::Dot { .. } => {
            evaluate(rt, h, nodes, 0, depth)?;
            Ok(true)
        },
        ASTNode::If(_) | ASTNode::Elif(_) | ASTNode::Else => compile_if_elif_else_statement(rt, h, nodes, depth),
        ASTNode::Try(_) | ASTNode::Catch(_) | ASTNode::Finally(_) => {
            let t = compile_try_catch_finally(rt, h, nodes, depth);
            match t {
                Ok(_) => Ok(true),
                Err(e) => Err(e),
            }
        },
        ASTNode::For { variable, start, end, body } => compile_for_loop(rt, h, variable, *start, *end, body, depth),
        ASTNode::While { condition, body } => compile_while_loop(rt, h, condition, body, depth),
        ASTNode::Return(text) => {
            let value_nodes = string_to_ast(text.clone());
            evaluate(rt, h, value_nodes.as_slice(), 0, depth)?;
            Ok(true)
        },
        _ => Err(error_of(3, "no compiler takes this statement")),
    }
}

} // verus!
