use jist::interp::{route_to_parser, NoNatives, MAX_DEPTH};
use jist::node::string_to_ast;
use jist::store::Runtime;
use jist::value::{Value, ValueType};

fn run_program(statements: &[&str]) -> Runtime {
    let mut rt = Runtime::new();
    for s in statements {
        let nodes = string_to_ast(s.to_string());
        route_to_parser(&mut rt, &mut NoNatives, &nodes, MAX_DEPTH).unwrap();
    }
    rt
}

fn text(s: &str) -> Value {
    Value::Text(s.to_string())
}

#[test]
fn test_int_variable_declarations() {
    let rt = run_program(&["let a: int = 1;"]);
    assert_eq!(rt.variables[0].name, "a");
    assert_eq!(rt.variables[0].var_type, ValueType::Int);
    assert_eq!(rt.variables[0].value, Value::Int(1));
}

#[test]
fn test_string_variable_declaration() {
    let rt = run_program(&["let a: string = \"Hello World\";"]);
    assert_eq!(rt.variables[0].name, "a");
    assert_eq!(rt.variables[0].var_type, ValueType::Text);
    assert_eq!(rt.variables[0].value, text("Hello World"));
}

#[test]
fn test_bool_variable_declaration() {
    let rt = run_program(&["let a: bool = true;"]);
    assert_eq!(rt.variables[0].name, "a");
    assert_eq!(rt.variables[0].var_type, ValueType::Bool);
    assert_eq!(rt.variables[0].value, Value::Bool(true));
}

#[test]
fn test_boolean_variable_declaration() {
    let rt = run_program(&["let a: bool = True;"]);
    assert_eq!(rt.variables[0].value, Value::Bool(true));
}

#[test]
fn test_char_variable_declaration() {
    let rt = run_program(&["let a: char = 'a';"]);
    assert_eq!(rt.variables[0].name, "a");
    assert_eq!(rt.variables[0].var_type, ValueType::Char);
    assert_eq!(rt.variables[0].value, Value::Char('a'));
}

#[test]
fn test_array_boolean_collection_declaration() {
    let rt = run_program(&["let a: array<bool> = [true, false, true];"]);
    assert_eq!(rt.arrays[0].name, "a");
    assert_eq!(rt.arrays[0].element_type, ValueType::Bool);
    assert_eq!(rt.arrays[0].values, vec![Value::Bool(true), Value::Bool(false), Value::Bool(true)]);
}

#[test]
fn test_array_char_collection_declaration() {
    let rt = run_program(&["let a: array<char> = ['a', 'b', 'c'];"]);
    assert_eq!(rt.arrays[0].element_type, ValueType::Char);
    assert_eq!(rt.arrays[0].values, vec![Value::Char('a'), Value::Char('b'), Value::Char('c')]);
}

#[test]
fn test_array_int_collection_declaration() {
    let rt = run_program(&["let a: array<int> = [1, 2, 3];"]);
    assert_eq!(rt.arrays[0].element_type, ValueType::Int);
    assert_eq!(rt.arrays[0].values, vec![Value::Int(1), Value::Int(2), Value::Int(3)]);
}

#[test]
fn test_dict_boolean_string_collection_declaration() {
    let rt = run_program(&["let a: dict<bool, string> = {true => \"true\", false => \"false\", true => \"not false\"};"]);
    let d = &rt.dictionaries[0];
    assert_eq!((d.key_type, d.value_type), (ValueType::Bool, ValueType::Text));
    assert_eq!(
        d.pairs,
        vec![
            (Value::Bool(true), text("true")),
            (Value::Bool(false), text("false")),
            (Value::Bool(true), text("not false")),
        ]
    );
}

#[test]
fn test_dict_int_char_collection_declaration() {
    let rt = run_program(&["let a: dict<int, char> = {1 => 'a', 2 => 'b', 3 => 'c'};"]);
    let d = &rt.dictionaries[0];
    assert_eq!((d.key_type, d.value_type), (ValueType::Int, ValueType::Char));
    assert_eq!(
        d.pairs,
        vec![
            (Value::Int(1), Value::Char('a')),
            (Value::Int(2), Value::Char('b')),
            (Value::Int(3), Value::Char('c')),
        ]
    );
}

#[test]
fn test_dict_int_string_collection_declaration() {
    let rt = run_program(&["let a: dict<int, string> = {1 => \"one\", 2 => \"two\", 3 => \"three\"};"]);
    let d = &rt.dictionaries[0];
    assert_eq!((d.key_type, d.value_type), (ValueType::Int, ValueType::Text));
    assert_eq!(
        d.pairs,
        vec![(Value::Int(1), text("one")), (Value::Int(2), text("two")), (Value::Int(3), text("three"))]
    );
}
