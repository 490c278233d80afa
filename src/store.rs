//! The runtime stores: variables, arrays, dictionaries and user functions,
//! all held by one runtime that every statement compiler works on.

use vstd::prelude::*;
use crate::token::{texts, param_texts};
use crate::value::{Value, ValueType, ValueView};

verus! {

/// A named variable with its declared type and current value.
#[derive(Debug)]
pub struct Variable {
    pub name: String,
    pub var_type: ValueType,
    pub value: Value,
}

/// A named array with its element type and values in order.
#[derive(Debug)]
pub struct Array {
    pub name: String,
    pub element_type: ValueType,
    pub values: Vec<Value>,
}

/// A named dictionary: a list of key and value pairs in declaration order
/// (a key may occur more than once).
#[derive(Debug)]
pub struct Dictionary {
    pub name: String,
    pub key_type: ValueType,
    pub value_type: ValueType,
    pub pairs: Vec<(Value, Value)>,
}

/// A function declared by a script: its parameters as (name, type,
/// default text), the default value of each parameter (parsed by its type
/// when the function is declared), its return type, and the statements of
/// its body.
#[derive(Debug)]
pub struct UserFunction {
    pub name: String,
    pub return_type: String,
    pub params: Vec<(String, String, String)>,
    pub defaults: Vec<Value>,
    pub body: Vec<String>,
}

/// The stores that all statements share.
#[derive(Debug)]
pub struct Runtime {
    pub variables: Vec<Variable>,
    pub arrays: Vec<Array>,
    pub dictionaries: Vec<Dictionary>,
    pub functions: Vec<UserFunction>,
}

/// What a variable is.
pub struct VariableView {
    pub name: Seq<char>,
    pub var_type: ValueType,
    pub value: ValueView,
}

/// What an array is.
pub struct ArrayView {
    pub name: Seq<char>,
    pub element_type: ValueType,
    pub values: Seq<ValueView>,
}

/// What a dictionary is.
pub struct DictionaryView {
    pub name: Seq<char>,
    pub key_type: ValueType,
    pub value_type: ValueType,
    pub pairs: Seq<(ValueView, ValueView)>,
}

/// What a user function is.
pub struct FunctionView {
    pub name: Seq<char>,
    pub return_type: Seq<char>,
    pub params: Seq<(Seq<char>, Seq<char>, Seq<char>)>,
    pub defaults: Seq<ValueView>,
    pub body: Seq<Seq<char>>,
}

/// What the stores hold.
pub struct RuntimeView {
    pub variables: Seq<VariableView>,
    pub arrays: Seq<ArrayView>,
    pub dictionaries: Seq<DictionaryView>,
    pub functions: Seq<FunctionView>,
}

/// The views of a list of values.
pub open spec fn values_view(v: Seq<Value>) -> Seq<ValueView> {
    v.map_values(|x: Value| x@)
}

/// The views of a list of pairs of values.
pub open spec fn pairs_view(v: Seq<(Value, Value)>) -> Seq<(ValueView, ValueView)> {
    v.map_values(|p: (Value, Value)| (p.0@, p.1@))
}

impl View for Variable {
    type V = VariableView;

    open spec fn view(&self) -> VariableView {
        VariableView { name: self.name@, var_type: self.var_type, value: self.value@ }
    }
}

impl View for Array {
    type V = ArrayView;

    open spec fn view(&self) -> ArrayView {
        ArrayView { name: self.name@, element_type: self.element_type, values: values_view(self.values@) }
    }
}

impl View for Dictionary {
    type V = DictionaryView;

    open spec fn view(&self) -> DictionaryView {
        DictionaryView {
            name: self.name@,
            key_type: self.key_type,
            value_type: self.value_type,
            pairs: pairs_view(self.pairs@),
        }
    }
}

impl View for UserFunction {
    type V = FunctionView;

    open spec fn view(&self) -> FunctionView {
        FunctionView {
            name: self.name@,
            return_type: self.return_type@,
            params: param_texts(self.params@),
            defaults: values_view(self.defaults@),
            body: texts(self.body@),
        }
    }
}

impl View for Runtime {
    type V = RuntimeView;

    open spec fn view(&self) -> RuntimeView {
        RuntimeView {
            variables: self.variables@.map_values(|v: Variable| v@),
            arrays: self.arrays@.map_values(|a: Array| a@),
            dictionaries: self.dictionaries@.map_values(|d: Dictionary| d@),
            functions: self.functions@.map_values(|f: UserFunction| f@),
        }
    }
}

/// Position of the last variable named `name`, or -1.
pub open spec fn last_variable(vars: Seq<VariableView>, name: Seq<char>) -> int
    decreases vars.len(),
{
    if vars.len() == 0 {
        -1
    } else if vars.last().name == name {
        vars.len() - 1
    } else {
        last_variable(vars.drop_last(), name)
    }
}

/// Position of the last array named `name`, or -1.
pub open spec fn last_array(arrays: Seq<ArrayView>, name: Seq<char>) -> int
    decreases arrays.len(),
{
    if arrays.len() == 0 {
        -1
    } else if arrays.last().name == name {
        arrays.len() - 1
    } else {
        last_array(arrays.drop_last(), name)
    }
}

/// Position of the last dictionary named `name`, or -1.
pub open spec fn last_dictionary(dicts: Seq<DictionaryView>, name: Seq<char>) -> int
    decreases dicts.len(),
{
    if dicts.len() == 0 {
        -1
    } else if dicts.last().name == name {
        dicts.len() - 1
    } else {
        last_dictionary(dicts.drop_last(), name)
    }
}

/// Position of the first user function named `name`, or the number of
/// functions.
pub open spec fn first_function(fns: Seq<FunctionView>, name: Seq<char>) -> int
    decreases fns.len(),
{
    if fns.len() == 0 {
        0
    } else if fns[0].name == name {
        0
    } else {
        1 + first_function(fns.drop_first(), name)
    }
}

/// The variables after declaring `v`: it takes the place of the last
/// variable of its name, or is added at the end.
pub open spec fn declare_in(vars: Seq<VariableView>, v: VariableView) -> Seq<VariableView> {
    let k = last_variable(vars, v.name);
    if k >= 0 {
        vars.update(k, v)
    } else {
        vars.push(v)
    }
}

pub proof fn lemma_last_variable(vars: Seq<VariableView>, name: Seq<char>)
    ensures
        -1 <= last_variable(vars, name) < vars.len(),
        last_variable(vars, name) >= 0 ==> vars[last_variable(vars, name)].name == name,
        forall|k: int| last_variable(vars, name) < k < vars.len() ==> #[trigger] vars[k].name != name,
    decreases vars.len(),
{
    if vars.len() > 0 && vars.last().name != name {
        lemma_last_variable(vars.drop_last(), name);
        assert forall|k: int| last_variable(vars, name) < k < vars.len() implies #[trigger] vars[k].name != name by {
            if k < vars.len() - 1 {
                assert(vars.drop_last()[k] == vars[k]);
            }
        }
    }
}

/// Where the declared variable stands: in place of the last variable of its
/// name, or at the end.
pub proof fn lemma_declared_position(vars: Seq<VariableView>, v: VariableView)
    ensures
        last_variable(declare_in(vars, v), v.name) == if last_variable(vars, v.name) >= 0 {
            last_variable(vars, v.name)
        } else {
            vars.len() as int
        },
{
    lemma_last_variable(vars, v.name);
    let k = last_variable(vars, v.name);
    let after = declare_in(vars, v);
    lemma_last_variable(after, v.name);
    let j = last_variable(after, v.name);
    if k >= 0 {
        if j != k {
            if j < k {
                assert(after[k].name == v.name);
            } else {
                assert(after[j] == vars[j]);
            }
        }
    } else {
        assert(after[vars.len() as int] == v);
    }
}

/// Declaring a variable twice under one name leaves what the second
/// declaration alone would, and the second may write where the first stood.
pub proof fn lemma_redeclare(vars: Seq<VariableView>, v1: VariableView, v2: VariableView)
    requires
        v1.name == v2.name,
    ensures
        declare_in(vars, v1).update(last_variable(declare_in(vars, v1), v1.name), v2) == declare_in(vars, v2),
        last_variable(declare_in(vars, v1), v1.name) >= 0,
        last_variable(declare_in(vars, v1), v1.name) < declare_in(vars, v1).len(),
{
    lemma_declared_position(vars, v1);
    lemma_last_variable(vars, v1.name);
    let k = last_variable(vars, v1.name);
    if k >= 0 {
        assert(vars.update(k, v1).update(k, v2) =~= vars.update(k, v2));
    } else {
        assert(vars.push(v1).update(vars.len() as int, v2) =~= vars.push(v2));
    }
}

impl Runtime {
    /// Empty stores.
    pub fn new() -> (r: Runtime)
        ensures
            r@.variables.len() == 0,
            r@.arrays.len() == 0,
            r@.dictionaries.len() == 0,
            r@.functions.len() == 0,
    {
        Runtime { variables: Vec::new(), arrays: Vec::new(), dictionaries: Vec::new(), functions: Vec::new() }
    }

    /// Position of the last variable named `name`.
    pub fn find_variable(&self, name: &str) -> (r: Option<usize>)
        ensures
            r matches Some(k) ==> k as int == last_variable(self@.variables, name@) && k < self@.variables.len(),
            r is None ==> last_variable(self@.variables, name@) == -1,
    {
        let mut i = self.variables.len();
        let ghost vs = self@.variables;
        let target = String::from_str(name);
        assert(vs.subrange(0, vs.len() as int) =~= vs);
        while i > 0
            invariant
                i <= self.variables@.len(),
                vs == self@.variables,
                target@ == name@,
                last_variable(vs, name@) == last_variable(vs.subrange(0, i as int), name@),
            decreases i,
        {
            assert(vs.subrange(0, i as int).drop_last() =~= vs.subrange(0, i - 1));
            if self.variables[i - 1].name == target {
                return Some(i - 1);
            }
            i -= 1;
        }
        None
    }

    /// Position of the last array named `name`.
    pub fn find_array(&self, name: &str) -> (r: Option<usize>)
        ensures
            r matches Some(k) ==> k as int == last_array(self@.arrays, name@) && k < self@.arrays.len(),
            r is None ==> last_array(self@.arrays, name@) == -1,
    {
        let mut i = self.arrays.len();
        let ghost vs = self@.arrays;
        let target = String::from_str(name);
        assert(vs.subrange(0, vs.len() as int) =~= vs);
        while i > 0
            invariant
                i <= self.arrays@.len(),
                vs == self@.arrays,
                target@ == name@,
                last_array(vs, name@) == last_array(vs.subrange(0, i as int), name@),
            decreases i,
        {
            assert(vs.subrange(0, i as int).drop_last() =~= vs.subrange(0, i - 1));
            if self.arrays[i - 1].name == target {
                return Some(i - 1);
            }
            i -= 1;
        }
        None
    }

    /// Position of the last dictionary named `name`.
    pub fn find_dictionary(&self, name: &str) -> (r: Option<usize>)
        ensures
            r matches Some(k) ==> k as int == last_dictionary(self@.dictionaries, name@) && k < self@.dictionaries.len(),
            r is None ==> last_dictionary(self@.dictionaries, name@) == -1,
    {
        let mut i = self.dictionaries.len();
        let ghost vs = self@.dictionaries;
        let target = String::from_str(name);
        assert(vs.subrange(0, vs.len() as int) =~= vs);
        while i > 0
            invariant
                i <= self.dictionaries@.len(),
                vs == self@.dictionaries,
                target@ == name@,
                last_dictionary(vs, name@) == last_dictionary(vs.subrange(0, i as int), name@),
            decreases i,
        {
            assert(vs.subrange(0, i as int).drop_last() =~= vs.subrange(0, i - 1));
            if self.dictionaries[i - 1].name == target {
                return Some(i - 1);
            }
            i -= 1;
        }
        None
    }

    /// Position of the first user function named `name`.
    pub fn find_function_in_stack(&self, name: &str) -> (r: Option<usize>)
        ensures
            r matches Some(k) ==> k as int == first_function(self@.functions, name@) && k
                < self@.functions.len(),
            r is None ==> first_function(self@.functions, name@) == self@.functions.len(),
    {
        let mut i: usize = 0;
        let ghost fs = self@.functions;
        let target = String::from_str(name);
        assert(fs.subrange(0, fs.len() as int) =~= fs);
        while i < self.functions.len()
            invariant
                i <= self.functions@.len(),
                fs == self@.functions,
                target@ == name@,
                first_function(fs, name@) == i + first_function(fs.subrange(i as int, fs.len() as int), name@),
            decreases self.functions@.len() - i,
        {
            assert(fs.subrange(i as int, fs.len() as int).drop_first() =~= fs.subrange(i + 1, fs.len() as int));
            if self.functions[i].name == target {
                return Some(i);
            }
            i += 1;
        }
        None
    }

    /// Whether a user function named `name` is declared.
    pub fn is_function_in_stack(&self, name: &str) -> (r: bool)
        ensures
            r == (first_function(self@.functions, name@) < self@.functions.len()),
    {
        self.find_function_in_stack(name).is_some()
    }

    /// Declares `v`: it takes the place of the last variable of its name, or
    /// is added at the end.
    pub fn declare_variable(&mut self, v: Variable)
        ensures
            final(self)@.variables == declare_in(old(self)@.variables, v@),
            final(self)@.arrays == old(self)@.arrays,
            final(self)@.dictionaries == old(self)@.dictionaries,
            final(self)@.functions == old(self)@.functions,
    {
        let found = self.find_variable(v.name.as_str());
        proof {
            lemma_last_variable(old(self)@.variables, v.name@);
        }
        match found {
            Some(k) => {
                self.variables.set(k, v);
            },
            None => {
                self.variables.push(v);
            },
        }
        assert(self@.variables =~= declare_in(old(self)@.variables, v@));
    }
}

} // verus!
