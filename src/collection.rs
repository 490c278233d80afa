//! The collection compiler: array and dictionary declarations.

use vstd::prelude::*;
use crate::node::ASTNode;
use crate::store::{Array, ArrayView, Dictionary, DictionaryView, Runtime, values_view, pairs_view};
use crate::value::{Value, ValueView, type_named, type_of_name};

verus! {

/// Why a collection declaration was refused.
#[derive(Debug)]
pub enum CollectionError {
    /// The declaration is malformed: empty, not headed by a collection, or a
    /// key and a value do not pair up.
    SyntaxError(String),
    /// An element is no literal, or a type or collection kind is unknown.
    InvalidType(String),
}

/// The kind of a refusal, for contracts.
pub enum Fault {
    Syntax,
    Type,
}

/// The fault of an error.
pub open spec fn fault_of(e: CollectionError) -> Fault {
    match e {
        CollectionError::SyntaxError(_) => Fault::Syntax,
        CollectionError::InvalidType(_) => Fault::Type,
    }
}

/// The value of a literal node.
pub open spec fn literal_value(n: ASTNode) -> Option<ValueView> {
    match n {
        ASTNode::Int(i) => Some(ValueView::Int(i)),
        ASTNode::Float(f) => Some(ValueView::Float(f@)),
        ASTNode::Text(t) => Some(ValueView::Text(t@)),
        ASTNode::Char(c) => Some(ValueView::Char(c)),
        ASTNode::Bool(b) => Some(ValueView::Bool(b)),
        _ => None,
    }
}

/// The value of a literal node.
pub fn literal_of(n: &ASTNode) -> (r: Option<Value>)
    ensures
        r matches Some(v) ==> literal_value(*n) == Some(v@),
        r is None ==> literal_value(*n) is None,
{
    match n {
        ASTNode::Int(i) => Some(Value::Int(*i)),
        ASTNode::Float(f) => Some(Value::Float(f.clone())),
        ASTNode::Text(t) => Some(Value::Text(t.clone())),
        ASTNode::Char(c) => Some(Value::Char(*c)),
        ASTNode::Bool(b) => Some(Value::Bool(*b)),
        _ => None,
    }
}

/// The elements of an array declaration from node `i` on: each literal is
/// an element, `]` ends the list, `=`, `,` and `[` are passed over,
/// and any other node is refused.
pub open spec fn array_elements(nodes: Seq<ASTNode>, i: int) -> Option<Seq<ValueView>>
    decreases nodes.len() - i,
{
    if i < 0 || i >= nodes.len() {
        Some(Seq::empty())
    } else if literal_value(nodes[i]) is Some {
        match array_elements(nodes, i + 1) {
            Some(rest) => Some(seq![literal_value(nodes[i])->0] + rest),
            None => None,
        }
    } else {
        match nodes[i] {
            ASTNode::RightBracket => Some(Seq::empty()),
            ASTNode::AssignmentOperator | ASTNode::ArgumentSeparator | ASTNode::LeftBracket =>
                array_elements(nodes, i + 1),
            _ => None,
        }
    }
}

/// The pairs of a dictionary declaration from node `i` on, with `key`
/// waiting for its value and `arrow` telling whether `=>` followed it. A
/// value with no key before it, a key followed by another literal instead
/// of `=>`, and a key still waiting at the end are syntax errors.
pub open spec fn dict_pairs(
    nodes: Seq<ASTNode>,
    i: int,
    key: Option<ValueView>,
    arrow: bool,
) -> Result<Seq<(ValueView, ValueView)>, Fault>
    decreases nodes.len() - i,
{
    if i < 0 || i >= nodes.len() {
        if key is Some {
            Err(Fault::Syntax)
        } else {
            Ok(Seq::empty())
        }
    } else if literal_value(nodes[i]) is Some {
        let v = literal_value(nodes[i])->0;
        if arrow {
            match key {
                Some(k) => match dict_pairs(nodes, i + 1, None, false) {
                    Ok(rest) => Ok(seq![(k, v)] + rest),
                    Err(e) => Err(e),
                },
                None => Err(Fault::Syntax),
            }
        } else if key is Some {
            Err(Fault::Syntax)
        } else {
            dict_pairs(nodes, i + 1, Some(v), false)
        }
    } else {
        match nodes[i] {
            ASTNode::FatArrow => dict_pairs(nodes, i + 1, key, true),
            ASTNode::AssignmentOperator | ASTNode::LeftCurly | ASTNode::RightCurly
            | ASTNode::ArgumentSeparator | ASTNode::SemiColon => dict_pairs(nodes, i + 1, key, arrow),
            _ => Err(Fault::Type),
        }
    }
}

/// What a collection declaration adds to the stores.
pub enum Declaration {
    Array(ArrayView),
    Dictionary(DictionaryView),
}

/// What the collection declaration `nodes` declares, or why it is refused.
pub open spec fn collection_declared(nodes: Seq<ASTNode>) -> Result<Declaration, Fault> {
    if nodes.len() == 0 {
        Err(Fault::Syntax)
    } else {
        match nodes[0] {
            ASTNode::Collection { name, kind, single, pair } => if kind@ == "array"@ {
                match type_named(single@) {
                    Some(t) => match array_elements(nodes, 1) {
                        Some(vals) => Ok(Declaration::Array(ArrayView { name: name@, element_type: t, values: vals })),
                        None => Err(Fault::Type),
                    },
                    None => Err(Fault::Type),
                }
            } else if kind@ == "dict"@ {
                match (type_named(pair.0@), type_named(pair.1@)) {
                    (Some(kt), Some(vt)) => match dict_pairs(nodes, 1, None, false) {
                        Ok(ps) => Ok(Declaration::Dictionary(DictionaryView {
                            name: name@,
                            key_type: kt,
                            value_type: vt,
                            pairs: ps,
                        })),
                        Err(e) => Err(e),
                    },
                    _ => Err(Fault::Type),
                }
            } else {
                Err(Fault::Type)
            },
            _ => Err(Fault::Syntax),
        }
    }
}

/// Adds an array to the stores.
fn add_to_array_stack(rt: &mut Runtime, array: Array)
    ensures
        final(rt)@.arrays == old(rt)@.arrays.push(array@),
        final(rt)@.variables == old(rt)@.variables,
        final(rt)@.dictionaries == old(rt)@.dictionaries,
        final(rt)@.functions == old(rt)@.functions,
{
    rt.arrays.push(array);
    assert(rt@.arrays =~= old(rt)@.arrays.push(array@));
}

/// Adds a dictionary to the stores.
fn add_to_dictionary_stack(rt: &mut Runtime, dict: Dictionary)
    ensures
        final(rt)@.dictionaries == old(rt)@.dictionaries.push(dict@),
        final(rt)@.variables == old(rt)@.variables,
        final(rt)@.arrays == old(rt)@.arrays,
        final(rt)@.functions == old(rt)@.functions,
{
    rt.dictionaries.push(dict);
    assert(rt@.dictionaries =~= old(rt)@.dictionaries.push(dict@));
}

fn syntax_error(msg: &str) -> (r: CollectionError)
    ensures
        fault_of(r) == Fault::Syntax,
{
    CollectionError::SyntaxError(String::from_str(msg))
}

fn type_error(msg: &str) -> (r: CollectionError)
    ensures
        fault_of(r) == Fault::Type,
{
    CollectionError::InvalidType(String::from_str(msg))
}

/// The elements of the array declaration `expression`.
fn parse_array_declaration(expression: &[ASTNode]) -> (r: Result<Vec<Value>, CollectionError>)
    ensures
        r matches Ok(v) ==> array_elements(expression@, 1) == Some(values_view(v@)),
        r matches Err(e) ==> array_elements(expression@, 1) is None && fault_of(e) == Fault::Type,
{
    let mut values: Vec<Value> = Vec::new();
    let mut i: usize = 1;
    let n = expression.len();
    if n < 1 {
        return Ok(values);
    }
    while i < n
        invariant
            1 <= i <= n,
            n == expression@.len(),
            array_elements(expression@, 1) == match array_elements(expression@, i as int) {
                Some(rest) => Some(values_view(values@) + rest),
                None => None,
            },
        decreases n - i,
    {
        let node = &expression[i];
        let ghost before = values_view(values@);
        match literal_of(node) {
            Some(v) => {
                values.push(v);
                proof {
                    assert(values_view(values@) =~= before.push(literal_value(*node)->0));
                    match array_elements(expression@, i + 1) {
                        Some(rest) => {
                            assert(before + (seq![literal_value(*node)->0] + rest) =~= values_view(values@) + rest);
                        },
                        None => {},
                    }
                }
            },
            None => {
                match node {
                    ASTNode::RightBracket => {
                        assert(values_view(values@) + Seq::<ValueView>::empty() =~= values_view(values@));
                        return Ok(values);
                    },
                    ASTNode::AssignmentOperator | ASTNode::ArgumentSeparator | ASTNode::LeftBracket => {},
                    _ => {
                        return Err(type_error("unexpected node in an array"));
                    },
                }
            },
        }
        i += 1;
    }
    assert(values_view(values@) + Seq::<ValueView>::empty() =~= values_view(values@));
    Ok(values)
}

/// Takes one literal of a dictionary declaration: it is a key, or the value
/// that completes the pair of the waiting key once `=>` has come.
fn handle_key_value(
    base_value: Value,
    key: &mut Option<Value>,
    have_fat_arrow: &mut bool,
    values: &mut Vec<(Value, Value)>,
) -> (r: Result<(), CollectionError>)
    ensures
        *old(have_fat_arrow) ==> match *old(key) {
            Some(k) => r is Ok && pairs_view(final(values)@) == pairs_view(old(values)@).push((k@, base_value@))
                && *final(key) is None && !*final(have_fat_arrow),
            None => r matches Err(e) && fault_of(e) == Fault::Syntax,
        },
        !*old(have_fat_arrow) ==> match *old(key) {
            Some(_) => r matches Err(e) && fault_of(e) == Fault::Syntax,
            None => r is Ok && final(values)@ == old(values)@ && *final(key) == Some(base_value)
                && !*final(have_fat_arrow),
        },
{
    if *have_fat_arrow {
        match key.take() {
            Some(k) => {
                values.push((k, base_value));
                *have_fat_arrow = false;
                assert(pairs_view(values@) =~= pairs_view(old(values)@).push((k@, base_value@)));
                Ok(())
            },
            None => Err(syntax_error("missing key for value")),
        }
    } else if key.is_some() {
        Err(syntax_error("key without a value"))
    } else {
        *key = Some(base_value);
        Ok(())
    }
}

/// The pairs of the dictionary declaration `expression`.
fn parse_dict_declaration(expression: &[ASTNode]) -> (r: Result<Vec<(Value, Value)>, CollectionError>)
    ensures
        r matches Ok(v) ==> dict_pairs(expression@, 1, None, false) == Ok::<_, Fault>(pairs_view(v@)),
        r matches Err(e) ==> dict_pairs(expression@, 1, None, false) == Err::<Seq<(ValueView, ValueView)>, _>(fault_of(e)),
{
    let mut values: Vec<(Value, Value)> = Vec::new();
    let mut key: Option<Value> = None;
    let mut have_fat_arrow = false;
    let n = expression.len();
    let mut i: usize = 1;
    if n < 1 {
        assert(pairs_view(values@) =~= Seq::<(ValueView, ValueView)>::empty());
        return Ok(values);
    }
    while i < n
        invariant
            1 <= i <= n,
            n == expression@.len(),
            dict_pairs(expression@, 1, None, false) == match dict_pairs(
                expression@,
                i as int,
                match key { Some(k) => Some(k@), None => None },
                have_fat_arrow,
            ) {
                Ok(rest) => Ok(pairs_view(values@) + rest),
                Err(e) => Err(e),
            },
        decreases n - i,
    {
        let node = &expression[i];
        let ghost before = pairs_view(values@);
        let ghost old_key = key;
        match literal_of(node) {
            Some(v) => {
                let res = handle_key_value(v, &mut key, &mut have_fat_arrow, &mut values);
                match res {
                    Ok(()) => {
                        proof {
                            if old_key is Some {
                                match dict_pairs(expression@, i + 1, None, false) {
                                    Ok(rest) => {
                                        assert(before + (seq![(old_key->0@, literal_value(*node)->0)] + rest)
                                            =~= pairs_view(values@) + rest);
                                    },
                                    Err(_) => {},
                                }
                            }
                        }
                    },
                    Err(e) => {
                        return Err(e);
                    },
                }
            },
            None => {
                match node {
                    ASTNode::FatArrow => {
                        have_fat_arrow = true;
                    },
                    ASTNode::AssignmentOperator | ASTNode::LeftCurly | ASTNode::RightCurly
                    | ASTNode::ArgumentSeparator | ASTNode::SemiColon => {},
                    _ => {
                        return Err(type_error("unexpected node in a dictionary"));
                    },
                }
            },
        }
        i += 1;
    }
    if key.is_some() {
        return Err(syntax_error("key without a value"));
    }
    assert(pairs_view(values@) + Seq::<(ValueView, ValueView)>::empty() =~= pairs_view(values@));
    Ok(values)
}

/// Declares the array or dictionary that `expression` describes: a
/// collection node (`let name: array<type>` or `let name: dict<key,
/// value>`) followed by the literal elements. The new collection is added
/// to its store; on an error no store changes.
pub fn parse_collection_declaration(rt: &mut Runtime, expression: &[ASTNode]) -> (r: Result<(), CollectionError>)
    ensures
        match collection_declared(expression@) {
            Ok(Declaration::Array(a)) => r is Ok && final(rt)@.arrays == old(rt)@.arrays.push(a)
                && final(rt)@.dictionaries == old(rt)@.dictionaries,
            Ok(Declaration::Dictionary(d)) => r is Ok && final(rt)@.dictionaries
                == old(rt)@.dictionaries.push(d) && final(rt)@.arrays == old(rt)@.arrays,
            Err(f) => r matches Err(e) && fault_of(e) == f && final(rt)@ == old(rt)@,
        },
        final(rt)@.variables == old(rt)@.variables,
        final(rt)@.functions == old(rt)@.functions,
{
    proof {
        reveal_strlit("array");
        reveal_strlit("dict");
    }
    if expression.len() == 0 {
        return Err(syntax_error("empty declaration"));
    }
    match &expression[0] {
        ASTNode::Collection { name, kind, single, pair } => {
            if *kind == String::from_str("array") {
                match type_of_name(single.as_str()) {
                    Some(t) => {
                        let values = parse_array_declaration(expression)?;
                        let array = Array { name: name.clone(), element_type: t, values };
                        add_to_array_stack(rt, array);
                        Ok(())
                    },
                    None => Err(type_error("unknown element type")),
                }
            } else if *kind == String::from_str("dict") {
                match (type_of_name(pair.0.as_str()), type_of_name(pair.1.as_str())) {
                    (Some(kt), Some(vt)) => {
                        let pairs = parse_dict_declaration(expression)?;
                        let dict = Dictionary { name: name.clone(), key_type: kt, value_type: vt, pairs };
                        add_to_dictionary_stack(rt, dict);
                        Ok(())
                    },
                    _ => Err(type_error("unknown key or value type")),
                }
            } else {
                Err(type_error("unknown collection type"))
            }
        },
        _ => Err(syntax_error("first node is not a collection")),
    }
}

} // verus!
