use jist::collection::{parse_collection_declaration, CollectionError};
use jist::lexer::{read_boolean, read_numbers, read_object_call, read_operators, read_strings_chars};
use jist::interp::{
    compile_if_elif_else_statement, get_function_result, route_to_parser, Natives, NoNatives,
    MAX_DEPTH,
};
use jist::node::{string_to_ast, ASTNode};
use jist::operator::CompileError;
use jist::store::Runtime;
use jist::token::TokenTypes;
use jist::tokenizer::tokenize;
use jist::value::{Value, ValueType};

fn run(rt: &mut Runtime, src: &str) -> Result<bool, CompileError> {
    let nodes = string_to_ast(src.to_string());
    route_to_parser(rt, &mut NoNatives, &nodes, MAX_DEPTH)
}

fn value_of(rt: &Runtime, name: &str) -> Value {
    let k = rt.find_variable(name).expect("variable is declared");
    rt.variables[k].value.duplicate()
}

/// A host whose native functions do decimal arithmetic.
struct FloatHost;

impl Natives for FloatHost {
    fn call_native(&mut self, name: &str, args: &Vec<Value>) -> Option<Value> {
        let nums: Vec<f64> = args
            .iter()
            .map(|v| match v {
                Value::Float(t) => t.parse::<f64>().ok(),
                _ => None,
            })
            .collect::<Option<Vec<f64>>>()?;
        let r = match (name, nums.as_slice()) {
            ("divide", [a, b]) | ("/", [a, b]) => a / b,
            ("add", [a, b]) | ("+", [a, b]) => a + b,
            _ => return None,
        };
        Some(Value::Float(format!("{}", r)))
    }
}

#[test]
fn literal_declaration_stores_one_variable() {
    let mut rt = Runtime::new();
    assert!(run(&mut rt, "let n: int = 5;").unwrap());
    assert_eq!(rt.variables.len(), 1);
    assert_eq!(rt.variables[0].name, "n");
    assert_eq!(rt.variables[0].var_type, ValueType::Int);
    assert_eq!(rt.variables[0].value, Value::Int(5));
    assert!(run(&mut rt, "let n: int = 7;").unwrap());
    assert_eq!(rt.variables.len(), 1);
    assert_eq!(rt.variables[0].value, Value::Int(7));
}

#[test]
fn declaration_coerces_to_declared_type() {
    let mut rt = Runtime::new();
    run(&mut rt, "let x: float = 2;").unwrap();
    assert_eq!(value_of(&rt, "x"), Value::Float("2".to_string()));
    run(&mut rt, "let b: bool = 1;").unwrap();
    assert_eq!(value_of(&rt, "b"), Value::Bool(true));
    run(&mut rt, "let s: string = \"Hello World\";").unwrap();
    assert_eq!(value_of(&rt, "s"), Value::Text("Hello World".to_string()));
    run(&mut rt, "let c: char = 'a';").unwrap();
    assert_eq!(value_of(&rt, "c"), Value::Char('a'));
    let e = run(&mut rt, "let t: int = \"text\";").unwrap_err();
    assert!(matches!(e, CompileError::InvalidType(_)));
    let e = run(&mut rt, "let u: widget = 1;").unwrap_err();
    assert!(matches!(e, CompileError::InvalidType(_)));
}

#[test]
fn array_declaration_keeps_order() {
    let mut rt = Runtime::new();
    run(&mut rt, "let a: array<int> = [1, 2, 3];").unwrap();
    assert_eq!(rt.arrays.len(), 1);
    assert_eq!(rt.arrays[0].name, "a");
    assert_eq!(rt.arrays[0].element_type, ValueType::Int);
    assert_eq!(rt.arrays[0].values, vec![Value::Int(1), Value::Int(2), Value::Int(3)]);
}

#[test]
fn dictionary_declaration_keeps_pairs_in_order() {
    let mut rt = Runtime::new();
    run(&mut rt, "let a: dict<int, string> = {1 => \"one\", 2 => \"two\", 3 => \"three\"};").unwrap();
    let d = &rt.dictionaries[0];
    assert_eq!(d.key_type, ValueType::Int);
    assert_eq!(d.value_type, ValueType::Text);
    assert_eq!(
        d.pairs,
        vec![
            (Value::Int(1), Value::Text("one".to_string())),
            (Value::Int(2), Value::Text("two".to_string())),
            (Value::Int(3), Value::Text("three".to_string())),
        ]
    );
}

#[test]
fn dictionary_keeps_equal_keys() {
    let mut rt = Runtime::new();
    run(&mut rt, "let d: dict<bool, string> = {true => \"a\", false => \"b\", true => \"c\"};").unwrap();
    assert_eq!(rt.dictionaries[0].pairs.len(), 3);
    assert_eq!(rt.dictionaries[0].pairs[2].0, Value::Bool(true));
}

#[test]
fn dictionary_value_without_key_is_a_syntax_error() {
    let mut rt = Runtime::new();
    let nodes = string_to_ast("let d: dict<int, int> = {=> 1};".to_string());
    let e = parse_collection_declaration(&mut rt, &nodes).unwrap_err();
    assert!(matches!(e, CollectionError::SyntaxError(_)));
    assert!(rt.dictionaries.is_empty());
    let nodes = string_to_ast("let d: dict<int, int> = {1 2};".to_string());
    let e = parse_collection_declaration(&mut rt, &nodes).unwrap_err();
    assert!(matches!(e, CollectionError::SyntaxError(_)));
}

#[test]
fn unknown_element_type_is_invalid() {
    let mut rt = Runtime::new();
    let nodes = string_to_ast("let a: array<widget> = [1];".to_string());
    let e = parse_collection_declaration(&mut rt, &nodes).unwrap_err();
    assert!(matches!(e, CollectionError::InvalidType(_)));
    let nodes = string_to_ast("let a: list<int> = [1];".to_string());
    let e = parse_collection_declaration(&mut rt, &nodes).unwrap_err();
    assert!(matches!(e, CollectionError::InvalidType(_)));
}

#[test]
fn for_loop_runs_inclusive_range() {
    let mut rt = Runtime::new();
    run(&mut rt, "let count: int = 0;").unwrap();
    run(&mut rt, "let sum: int = 0;").unwrap();
    assert!(run(&mut rt, "for(i, 0..3){ count = count + 1; sum = sum + i; }").unwrap());
    assert_eq!(value_of(&rt, "count"), Value::Int(4));
    assert_eq!(value_of(&rt, "sum"), Value::Int(6));
    assert_eq!(value_of(&rt, "i"), Value::Int(4));
}

#[test]
fn while_loop_counts_to_three() {
    let mut rt = Runtime::new();
    run(&mut rt, "let i: int = 0;").unwrap();
    run(&mut rt, "let passes: int = 0;").unwrap();
    assert!(run(&mut rt, "while(i < 3){ i = i + 1; passes = passes + 1; }").unwrap());
    assert_eq!(value_of(&rt, "i"), Value::Int(3));
    assert_eq!(value_of(&rt, "passes"), Value::Int(3));
}

#[test]
fn unknown_function_is_a_lookup_failure() {
    let mut rt = Runtime::new();
    run(&mut rt, "let x: int = 1;").unwrap();
    let before = format!("{:?}", rt);
    let e = get_function_result(&mut rt, &mut NoNatives, "nosuch", vec![Value::Int(1)], MAX_DEPTH)
        .unwrap_err();
    assert!(matches!(e, CompileError::LookupFailure(_)));
    assert_eq!(format!("{:?}", rt), before);
    let e = run(&mut rt, "nosuch(1);").unwrap_err();
    assert!(matches!(e, CompileError::LookupFailure(_)));
    assert_eq!(format!("{:?}", rt), before);
}

#[test]
fn user_function_returns_its_value() {
    let mut rt = Runtime::new();
    run(&mut rt, "func add(a: int, b: int) -> int {\n    return a + b;\n}").unwrap();
    assert_eq!(rt.functions.len(), 1);
    run(&mut rt, "let r: int = add(2, 3);").unwrap();
    assert_eq!(value_of(&rt, "r"), Value::Int(5));
    assert_eq!(rt.variables.len(), 1);
}

#[test]
fn parameter_default_is_used() {
    let mut rt = Runtime::new();
    run(&mut rt, "func inc(a: int, b: int = 10) -> int {\n    return a + b;\n}").unwrap();
    run(&mut rt, "let r: int = inc(5);").unwrap();
    assert_eq!(value_of(&rt, "r"), Value::Int(15));
}

#[test]
fn text_builtins() {
    let mut rt = Runtime::new();
    run(&mut rt, "let s: string = concat(\"ab\", \"cd\");").unwrap();
    assert_eq!(value_of(&rt, "s"), Value::Text("abcd".to_string()));
    run(&mut rt, "let u: string = to_uppercase(\"abc\");").unwrap();
    assert_eq!(value_of(&rt, "u"), Value::Text("ABC".to_string()));
    run(&mut rt, "let l: string = to_lowercase(\"AbC\");").unwrap();
    assert_eq!(value_of(&rt, "l"), Value::Text("abc".to_string()));
    run(&mut rt, "let t: string = trim(\"  x y  \");").unwrap();
    assert_eq!(value_of(&rt, "t"), Value::Text("x y".to_string()));
}

#[test]
fn divide_by_zero_gives_infinity_through_the_host() {
    let mut rt = Runtime::new();
    let r = get_function_result(
        &mut rt,
        &mut FloatHost,
        "divide",
        vec![Value::Float("4.0".to_string()), Value::Float("0.0".to_string())],
        MAX_DEPTH,
    )
    .unwrap();
    assert_eq!(r, Value::Float("inf".to_string()));
}

#[test]
fn integer_arguments_are_promoted_for_numeric_builtins() {
    let mut rt = Runtime::new();
    let r = get_function_result(&mut rt, &mut FloatHost, "add", vec![Value::Int(1), Value::Int(2)], MAX_DEPTH)
        .unwrap();
    assert_eq!(r, Value::Float("3".to_string()));
}

#[test]
fn float_without_host_fails() {
    let mut rt = Runtime::new();
    let e = run(&mut rt, "let x: float = 1.5 + 2.5;").unwrap_err();
    assert!(matches!(e, CompileError::InvalidType(_)));
}

#[test]
fn integer_arithmetic_is_checked() {
    let mut rt = Runtime::new();
    let e = run(&mut rt, "let x: int = 1 / 0;").unwrap_err();
    assert!(matches!(e, CompileError::ArithmeticError(_)));
    run(&mut rt, "let y: int = 7 / 2;").unwrap();
    assert_eq!(value_of(&rt, "y"), Value::Int(3));
    run(&mut rt, "let z: int = 2 * 3;").unwrap();
    assert_eq!(value_of(&rt, "z"), Value::Int(6));
    let e = run(&mut rt, "let w: int = 2147483647 + 1;").unwrap_err();
    assert!(matches!(e, CompileError::ArithmeticError(_)));
}

#[test]
fn missing_operand_is_an_error() {
    let mut rt = Runtime::new();
    let e = run(&mut rt, "let x: int = 1 +;").unwrap_err();
    assert!(matches!(e, CompileError::InvalidType(_)));
}

#[test]
fn conditionals_give_their_truth() {
    let mut rt = Runtime::new();
    assert!(run(&mut rt, "if (1 < 2) {").unwrap());
    assert!(!run(&mut rt, "elif (2 < 1) {").unwrap());
    assert!(run(&mut rt, "else {").unwrap());
    let nodes = vec![ASTNode::Comment];
    let e = compile_if_elif_else_statement(&mut rt, &mut NoNatives, &nodes, MAX_DEPTH).unwrap_err();
    assert!(matches!(e, CompileError::SyntaxError(_)));
}

#[test]
fn try_failure_runs_catch_and_finally() {
    let mut rt = Runtime::new();
    run(&mut rt, "try { nosuch(); } catch { let c: int = 1; } finally { let f: int = 2; }").unwrap();
    assert_eq!(value_of(&rt, "c"), Value::Int(1));
    assert_eq!(value_of(&rt, "f"), Value::Int(2));
}

#[test]
fn try_success_skips_catch() {
    let mut rt = Runtime::new();
    run(&mut rt, "try { let t: int = 1; } catch { let c: int = 1; }").unwrap();
    assert_eq!(value_of(&rt, "t"), Value::Int(1));
    assert!(rt.find_variable("c").is_none());
}

#[test]
fn statement_without_compiler_is_a_routing_failure() {
    let mut rt = Runtime::new();
    let e = run(&mut rt, "(1 + 2);").unwrap_err();
    assert!(matches!(e, CompileError::RoutingFailure(_)));
    let e = route_to_parser(&mut rt, &mut NoNatives, &[], MAX_DEPTH).unwrap_err();
    assert!(matches!(e, CompileError::SyntaxError(_)));
}

#[test]
fn array_methods() {
    let mut rt = Runtime::new();
    run(&mut rt, "let a: array<int> = [1, 2];").unwrap();
    run(&mut rt, "a.push(3);").unwrap();
    assert_eq!(rt.arrays[0].values.len(), 3);
    run(&mut rt, "let n: int = a.len();").unwrap();
    assert_eq!(value_of(&rt, "n"), Value::Int(3));
    run(&mut rt, "let g: int = a.get(0);").unwrap();
    assert_eq!(value_of(&rt, "g"), Value::Int(1));
}

#[test]
fn token_display_shows_fields() {
    let toks = tokenize("for(i, 0..3){ x = 1; }".to_string());
    assert_eq!(toks[0].token.to_string(), "For: Var: i, Iter: (0, 3), Block: [\"x = 1;\"]");
    let toks = tokenize("while(i < 3){ i = i + 1; }".to_string());
    assert_eq!(toks[0].token.to_string(), "While: i < 3, Block: [\"i = i + 1;\"]");
    let toks = tokenize("let a: dict<string, int> = {};".to_string());
    assert_eq!(toks[0].token.to_string(), "Collection: a dict  (\"string\", \"int\")");
    let toks = tokenize("func f(a: int) -> int { return a; }".to_string());
    assert_eq!(
        toks[0].token.to_string(),
        "Function: f int \"(\\\"a\\\", \\\"int\\\", \\\"\\\") \", [\"return a;\"]"
    );
    assert_eq!(TokenTypes::SemiColon.to_string(), "SemiColon");
}

#[test]
fn numbers_and_literals() {
    let r = read_numbers("12.5;".to_string(), '1', 0);
    assert_eq!(r.token, TokenTypes::Float);
    assert_eq!(r.chars_read, 4);
    let r = read_numbers("1.2.3".to_string(), '1', 0);
    assert_eq!(r.token, TokenTypes::Unrecognized);
    let r = read_boolean("x = false;".to_string(), 4);
    assert_eq!((r.token, r.chars_read, r.value.as_str()), (TokenTypes::Bool, 5, "false"));
    let r = read_operators(String::new(), '>', '=', 0);
    assert_eq!((r.chars_read, r.value.as_str()), (2, ">="));
    let r = read_strings_chars("say \"hi\" now".to_string(), '"', 4);
    assert_eq!((r.token, r.chars_read, r.value.as_str()), (TokenTypes::String, 4, "\"hi\""));
    let r = read_object_call(&"arr.push".to_string());
    assert_eq!(r.token, TokenTypes::ObjectCall { name: "arr".to_string() });
}

#[test]
fn nested_block_is_one_statement() {
    let toks = tokenize("while(i < 3){ if (i > 1) { x = 1; } y = 2; }".to_string());
    assert_eq!(
        toks[0].token,
        TokenTypes::While {
            statement: "i < 3".to_string(),
            block: vec!["if (i > 1) { x = 1; }".to_string(), "y = 2;".to_string()],
        }
    );
    let toks = tokenize("try { } catch { }".to_string());
    assert_eq!(toks[0].token, TokenTypes::Try { block: vec![String::new()] });
}

#[test]
fn endless_recursion_hits_the_nesting_limit() {
    let mut rt = Runtime::new();
    run(&mut rt, "func f(a: int) -> int {\n    return f(a);\n}").unwrap();
    let e = run(&mut rt, "f(1);").unwrap_err();
    assert!(matches!(e, CompileError::LimitExceeded(_)));
    assert!(rt.variables.is_empty());
}

#[test]
fn for_loop_with_empty_range_runs_no_pass() {
    let mut rt = Runtime::new();
    run(&mut rt, "let count: int = 0;").unwrap();
    run(&mut rt, "for(k, 5..2){ count = count + 1; }").unwrap();
    assert_eq!(value_of(&rt, "count"), Value::Int(0));
    assert_eq!(value_of(&rt, "k"), Value::Int(5));
}

#[test]
fn while_loop_with_false_condition_runs_no_pass() {
    let mut rt = Runtime::new();
    run(&mut rt, "let i: int = 5;").unwrap();
    run(&mut rt, "while(i < 3){ i = i + 1; }").unwrap();
    assert_eq!(value_of(&rt, "i"), Value::Int(5));
}

#[test]
fn assignment_to_unknown_variable_fails() {
    let mut rt = Runtime::new();
    let e = run(&mut rt, "zz = 1;").unwrap_err();
    assert!(matches!(e, CompileError::LookupFailure(_)));
}

#[test]
fn comparison_of_variable_on_the_right() {
    let mut rt = Runtime::new();
    run(&mut rt, "let i: int = 2;").unwrap();
    assert!(run(&mut rt, "if (3 > i) {").unwrap());
    assert!(!run(&mut rt, "if (i > 3) {").unwrap());
    run(&mut rt, "let s: string = \"ab\" + \"cd\";").unwrap();
    assert_eq!(value_of(&rt, "s"), Value::Text("abcd".to_string()));
}

#[test]
fn dictionary_methods() {
    let mut rt = Runtime::new();
    run(&mut rt, "let d: dict<int, string> = {1 => \"one\"};").unwrap();
    run(&mut rt, "d.insert(2, \"two\");").unwrap();
    run(&mut rt, "let v: string = d.get(2);").unwrap();
    assert_eq!(value_of(&rt, "v"), Value::Text("two".to_string()));
    run(&mut rt, "let n: int = d.len();").unwrap();
    assert_eq!(value_of(&rt, "n"), Value::Int(2));
}

#[test]
fn array_pop_and_bad_index() {
    let mut rt = Runtime::new();
    run(&mut rt, "let a: array<int> = [4, 5];").unwrap();
    run(&mut rt, "let p: int = a.pop();").unwrap();
    assert_eq!(value_of(&rt, "p"), Value::Int(5));
    assert_eq!(rt.arrays[0].values, vec![Value::Int(4)]);
    let e = run(&mut rt, "let q: int = a.get(3);").unwrap_err();
    assert!(matches!(e, CompileError::LookupFailure(_)));
    let e = run(&mut rt, "let q: int = nothing.len();").unwrap_err();
    assert!(matches!(e, CompileError::LookupFailure(_)));
}

#[test]
fn name_before_anything_but_a_point_is_a_variable() {
    let r = read_object_call(&"a = 1;".to_string());
    assert_eq!((r.token, r.chars_read, r.value.as_str()), (TokenTypes::VariableCall, 1, "a"));
}

#[test]
fn unclosed_quote_is_no_match() {
    let r = read_strings_chars("\"abc".to_string(), '"', 0);
    assert_eq!((r.token, r.chars_read), (TokenTypes::Unrecognized, 0));
}

#[test]
fn dictionary_key_without_value_is_a_syntax_error() {
    let mut rt = Runtime::new();
    let nodes = string_to_ast("let d: dict<int, string> = {1 => \"a\", 2};".to_string());
    let e = parse_collection_declaration(&mut rt, &nodes).unwrap_err();
    assert!(matches!(e, CollectionError::SyntaxError(_)));
    assert!(rt.dictionaries.is_empty());
}

#[test]
fn semicolon_inside_array_is_invalid() {
    let mut rt = Runtime::new();
    let nodes = string_to_ast("let a: array<int> = [1, 2;];".to_string());
    let e = parse_collection_declaration(&mut rt, &nodes).unwrap_err();
    assert!(matches!(e, CollectionError::InvalidType(_)));
    assert!(rt.arrays.is_empty());
}

#[test]
fn lone_catch_block_is_accepted() {
    let mut rt = Runtime::new();
    assert!(run(&mut rt, "catch { let c: int = 1; }").unwrap());
    assert!(rt.find_variable("c").is_none());
}

#[test]
fn defaults_are_parsed_at_declaration() {
    let mut rt = Runtime::new();
    run(&mut rt, "func f(a: int, b: int = 5, c: int = x) -> int {\n    return a;\n}").unwrap();
    let f = &rt.functions[0];
    assert_eq!(f.defaults, vec![Value::Null, Value::Int(5), Value::Null]);
}

#[test]
fn failing_body_line_fails_the_loop() {
    let mut rt = Runtime::new();
    run(&mut rt, "let i: int = 0;").unwrap();
    let e = run(&mut rt, "while(i < 3){ nosuch(1); i = i + 1; }").unwrap_err();
    assert!(matches!(e, CompileError::LookupFailure(_)));
    assert_eq!(value_of(&rt, "i"), Value::Int(0));
}

#[test]
fn user_call_leaves_variables_as_they_were() {
    let mut rt = Runtime::new();
    run(&mut rt, "func plus(a: int, b: int) -> int {\n    return a + b;\n}").unwrap();
    let before = format!("{:?}", rt.variables);
    let r = get_function_result(&mut rt, &mut NoNatives, "plus", vec![Value::Int(1), Value::Int(2)], MAX_DEPTH)
        .unwrap();
    assert_eq!(r, Value::Int(3));
    assert_eq!(format!("{:?}", rt.variables), before);
}

#[test]
fn for_loop_from_two_runs_twice() {
    let mut rt = Runtime::new();
    run(&mut rt, "let seen: int = 0;").unwrap();
    run(&mut rt, "let passes: int = 0;").unwrap();
    run(&mut rt, "for(i, 2..3){ seen = seen + i; passes = passes + 1; }").unwrap();
    assert_eq!(value_of(&rt, "seen"), Value::Int(5));
    assert_eq!(value_of(&rt, "passes"), Value::Int(2));
    assert_eq!(value_of(&rt, "i"), Value::Int(4));
}
