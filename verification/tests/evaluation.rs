use flang::errors::{Error, ErrorKind};
use flang::runtime::scope::Scope;
use flang::runtime::session::Session;
use flang::runtime::types::function::{BasicFunction, FunctionOutline};
use flang::runtime::types::structs::StructDefinition;
use flang::runtime::types::{ContextualValue, Value, ValueType};
use flang::runtime::{process, step, Host};
use flang::sitter::expr::{ContextualExpr, Expr};
use flang::sitter::op::{Dyadic, Mondaic};
use flang::sitter::Span;
use std::sync::Arc;

struct Floats;

impl Host for Floats {
    fn add_numbers(&self, left: u64, right: u64) -> u64 {
        bits_of(f64::from_bits(left) + f64::from_bits(right))
    }

    fn number_text(&self, number: u64) -> String {
        f64::from_bits(number).to_string()
    }

    fn parse_number(&self, text: &str) -> Option<u64> {
        text.parse::<f64>().ok().map(bits_of)
    }
}

fn bits_of(number: f64) -> u64 {
    if number.is_nan() {
        f64::NAN.to_bits()
    } else {
        number.to_bits()
    }
}

fn at(e: Expr) -> ContextualExpr {
    e.context(Span::anonymous())
}

fn number(n: f64) -> ContextualExpr {
    at(Expr::Number(n.to_bits()))
}

fn text(s: &str) -> ContextualExpr {
    at(Expr::String(s.to_string()))
}

fn ident(s: &str) -> ContextualExpr {
    at(Expr::Ident(s.to_string()))
}

fn add(l: ContextualExpr, r: ContextualExpr) -> ContextualExpr {
    at(Expr::DyadicOp { verb: Dyadic::Add, lhs: Box::new(l), rhs: Box::new(r) })
}

fn declare(name: &str, typed: Option<&str>, e: ContextualExpr) -> ContextualExpr {
    at(Expr::Declaration {
        ident: name.to_string(),
        typed: typed.map(|t| t.to_string()),
        expr: Box::new(e),
    })
}

fn assign(name: &str, e: ContextualExpr) -> ContextualExpr {
    at(Expr::Assignment { ident: name.to_string(), expr: Box::new(e) })
}

fn call(name: &str, args: Vec<ContextualExpr>) -> ContextualExpr {
    at(Expr::FunctionCall(name.to_string(), args))
}

fn function(args: Vec<(&str, &str)>, returns: Option<&str>, body: Vec<ContextualExpr>) -> ContextualExpr {
    at(Expr::FunctionDeclaration {
        args: args.into_iter().map(|(a, b)| (a.to_string(), b.to_string())).collect(),
        return_type: returns.map(|t| t.to_string()),
        body: Arc::new(body),
    })
}

fn run(tree: Vec<ContextualExpr>) -> (Result<Option<ContextualValue>, Error>, Scope, Session) {
    let mut session = Session::new();
    let (result, scope) = process(&tree, None, &None, &mut session, &Floats);
    (result, scope, session)
}

fn value(result: Result<Option<ContextualValue>, Error>) -> Value {
    match result {
        Ok(Some(v)) => v.0,
        other => panic!("no value: {:?}", other),
    }
}

fn as_number(v: &Value) -> f64 {
    match v {
        Value::Number(bits) => f64::from_bits(*bits),
        other => panic!("no number: {:?}", other),
    }
}

fn as_text(v: &Value) -> String {
    match v {
        Value::String(s) => s.clone(),
        other => panic!("no text: {:?}", other),
    }
}

fn kind(result: Result<Option<ContextualValue>, Error>) -> ErrorKind {
    match result {
        Err(e) => e.kind,
        other => panic!("no error: {:?}", other),
    }
}

#[test]
fn literals_evaluate_to_themselves() {
    assert_eq!(as_number(&value(run(vec![number(4.5)]).0)), 4.5);
    assert_eq!(as_text(&value(run(vec![text("hi")]).0)), "hi");
    assert!(matches!(value(run(vec![at(Expr::Boolean(true))]).0), Value::Boolean(true)));
    assert!(matches!(value(run(vec![at(Expr::Undefined)]).0), Value::Undefined));
}

#[test]
fn empty_program_gives_undefined() {
    assert!(matches!(value(run(vec![]).0), Value::Undefined));
}

#[test]
fn one_plus_two_is_three() {
    let (result, _, _) = run(vec![add(number(1.0), number(2.0))]);
    assert_eq!(as_number(&value(result)), 3.0);
}

#[test]
fn sum_that_is_no_number_has_one_bit_pattern() {
    let sums = [
        (f64::INFINITY, f64::NEG_INFINITY),
        (f64::NEG_INFINITY, f64::INFINITY),
        (f64::NAN, 1.0),
        (1.0, -f64::NAN),
        (f64::from_bits(0x7ff0_0000_0000_0001), 0.0),
        (f64::from_bits(0xfff8_0000_0000_1234), f64::from_bits(0x7ff8_0000_0000_4321)),
    ];
    for (a, b) in sums {
        let (result, _, _) = run(vec![add(number(a), number(b))]);
        match value(result) {
            Value::Number(bits) => assert_eq!(bits, 0x7ff8_0000_0000_0000, "{} + {}", a, b),
            other => panic!("no number: {:?}", other),
        }
    }
    assert_eq!(Floats.parse_number("NaN"), Some(0x7ff8_0000_0000_0000));
    assert_eq!(Floats.parse_number("-NaN"), Some(0x7ff8_0000_0000_0000));
    assert_eq!(Floats.parse_number("none"), None);
    assert_eq!(Floats.parse_number("1.5"), Some(1.5f64.to_bits()));
    assert_eq!(Floats.number_text(0x7ff8_0000_0000_0000), "NaN");
}

#[test]
fn text_plus_text_is_joined() {
    let (result, _, _) = run(vec![add(text("a"), text("b"))]);
    assert_eq!(as_text(&value(result)), "ab");
}

#[test]
fn number_plus_text_is_a_type_mismatch() {
    let (result, _, _) = run(vec![add(number(1.0), text("a"))]);
    assert_eq!(kind(result), ErrorKind::DyadicTypeMismatch);
}

#[test]
fn operator_without_implementation_fails() {
    let tree = vec![at(Expr::DyadicOp {
        verb: Dyadic::Subtract,
        lhs: Box::new(number(1.0)),
        rhs: Box::new(number(2.0)),
    })];
    assert_eq!(kind(run(tree).0), ErrorKind::NoSuchOperatorImplementation);
    let tree = vec![at(Expr::MondaicOp { verb: Mondaic::Negate, expr: Box::new(number(1.0)) })];
    assert_eq!(kind(run(tree).0), ErrorKind::NoSuchOperatorImplementation);
}

#[test]
fn declaration_binds_the_value() {
    let (result, scope, _) = run(vec![declare("x", None, number(7.0)), ident("x")]);
    assert_eq!(as_number(&value(result)), 7.0);
    assert_eq!(as_number(&scope.get("x").unwrap()), 7.0);
}

#[test]
fn declaration_of_a_declared_type_checks_it() {
    let (result, scope, _) = run(vec![declare("x", Some("number"), number(7.0))]);
    assert_eq!(as_number(&value(result)), 7.0);
    assert!(scope.get("x").is_some());
    let (result, scope, _) = run(vec![declare("x", Some("any"), text("t"))]);
    assert_eq!(as_text(&value(result)), "t");
    assert!(scope.get("x").is_some());
}

#[test]
fn declaration_of_the_wrong_type_binds_nothing() {
    let (result, scope, _) = run(vec![
        declare("x", None, number(1.0)),
        declare("x", Some("string"), number(2.0)),
    ]);
    assert_eq!(kind(result), ErrorKind::DeclaredTypeMismatch);
    assert_eq!(as_number(&scope.get("x").unwrap()), 1.0);
    let (result, scope, _) = run(vec![declare("y", Some("bool"), text("no"))]);
    assert_eq!(kind(result), ErrorKind::DeclaredTypeMismatch);
    assert!(scope.get("y").is_none());
}

#[test]
fn declaration_of_an_unknown_type_fails() {
    let (result, scope, _) = run(vec![declare("x", Some("widget"), number(2.0))]);
    assert_eq!(kind(result), ErrorKind::UnknownType);
    assert!(scope.get("x").is_none());
    let (result, _, _) = run(vec![declare("x", Some("uses Nothing"), number(2.0))]);
    assert_eq!(kind(result), ErrorKind::UnknownType);
}

#[test]
fn declaration_of_a_trait_type_checks_the_implementations() {
    let (result, _, _) = run(vec![declare("x", Some("uses Add"), number(2.0))]);
    assert_eq!(as_number(&value(result)), 2.0);
    let (result, _, _) = run(vec![declare("x", Some("uses Add"), at(Expr::Boolean(true)))]);
    assert_eq!(kind(result), ErrorKind::DeclaredTypeMismatch);
}

#[test]
fn declaration_without_a_value_fails() {
    let (result, _, _) = run(vec![declare("x", None, ident("nothing"))]);
    assert_eq!(kind(result), ErrorKind::MissingValue);
}

#[test]
fn assignment_replaces_the_value() {
    let (result, scope, _) = run(vec![declare("x", None, number(1.0)), assign("x", number(2.0))]);
    assert_eq!(as_number(&value(result)), 2.0);
    assert_eq!(as_number(&scope.get("x").unwrap()), 2.0);
}

#[test]
fn assignment_to_an_unbound_name_fails() {
    let (result, scope, _) = run(vec![assign("x", number(2.0))]);
    assert_eq!(kind(result), ErrorKind::UndefinedVariable);
    assert!(scope.get("x").is_none());
}

#[test]
fn assignment_of_another_type_keeps_the_binding() {
    let (result, scope, _) = run(vec![declare("x", None, number(1.0)), assign("x", text("t"))]);
    assert_eq!(kind(result), ErrorKind::TypeMismatch);
    assert_eq!(as_number(&scope.get("x").unwrap()), 1.0);
}

#[test]
fn unbound_identifier_has_no_value() {
    let mut scope = Scope::new();
    let mut session = Session::new();
    let r = step(&ident("nothing"), &mut scope, &None, &mut session, &Floats);
    assert!(matches!(r, Ok(None)));
}

#[test]
fn function_is_called_with_its_arguments() {
    let tree = vec![
        declare("twice", None, function(vec![("n", "number")], Some("number"), vec![add(ident("n"), ident("n"))])),
        call("twice", vec![number(4.0)]),
    ];
    assert_eq!(as_number(&value(run(tree).0)), 8.0);
}

#[test]
fn function_body_does_not_see_the_callers_variables() {
    let tree = vec![
        declare("x", None, number(1.0)),
        declare("f", None, function(vec![], None, vec![ident("x")])),
        call("f", vec![]),
    ];
    assert!(matches!(value(run(tree).0), Value::Undefined));
}

#[test]
fn early_return_skips_the_rest_of_the_body() {
    let tree = vec![
        declare(
            "f",
            None,
            function(
                vec![("out", "any")],
                None,
                vec![at(Expr::Return(Box::new(number(1.0)))), call("out", vec![text("unreached")])],
            ),
        ),
        call("f", vec![ident("print")]),
    ];
    let (result, _, mut session) = run(tree);
    assert_eq!(as_number(&value(result)), 1.0);
    assert!(session.take_output().is_empty());
}

#[test]
fn body_without_return_runs_to_its_end() {
    let tree = vec![
        declare(
            "f",
            None,
            function(vec![("out", "any")], None, vec![number(1.0), call("out", vec![text("reached")])]),
        ),
        call("f", vec![ident("print")]),
    ];
    let (result, _, mut session) = run(tree);
    assert_eq!(as_number(&value(result)), 1.0);
    assert_eq!(session.take_output(), vec!["\u{1b}[36m\"reached\"\u{1b}[39m".to_string()]);
}

#[test]
fn return_at_top_level_stops_the_program() {
    let tree = vec![at(Expr::Return(Box::new(number(1.0)))), declare("x", None, number(2.0))];
    let (result, scope, _) = run(tree);
    match value(result) {
        Value::Return(inner) => assert_eq!(as_number(&inner), 1.0),
        other => panic!("not returned: {:?}", other),
    }
    assert!(scope.get("x").is_none());
}

#[test]
fn call_of_an_unbound_name_fails() {
    assert_eq!(kind(run(vec![call("nothing", vec![])]).0), ErrorKind::NoSuchFunction);
    let tree = vec![declare("x", None, number(1.0)), call("x", vec![])];
    assert_eq!(kind(run(tree).0), ErrorKind::NoSuchFunction);
}

#[test]
fn call_with_the_wrong_arguments_fails() {
    let f = function(vec![("n", "number")], None, vec![ident("n")]);
    let tree = vec![declare("f", None, f), call("f", vec![text("t")])];
    assert_eq!(kind(run(tree).0), ErrorKind::ArgumentTypeMismatch);
    let f = function(vec![("n", "number")], None, vec![ident("n")]);
    let tree = vec![declare("f", None, f), call("f", vec![])];
    assert_eq!(kind(run(tree).0), ErrorKind::ArgumentTypeMismatch);
    let f = function(vec![("n", "number")], None, vec![ident("n")]);
    let tree = vec![declare("f", None, f), call("f", vec![number(1.0), number(2.0)])];
    assert_eq!(kind(run(tree).0), ErrorKind::ArgumentTypeMismatch);
}

#[test]
fn argument_mismatch_names_parameter_and_types() {
    let f = function(vec![("n", "number")], None, vec![ident("n")]);
    match run(vec![declare("f", None, f), call("f", vec![text("t")])]).0 {
        Err(e) => assert_eq!(e.error, "Mismatching types for fn arg n: String != Number"),
        other => panic!("no error: {:?}", other),
    }
    let mut scope = Scope::new();
    let g = BasicFunction {
        outline: Arc::new(FunctionOutline { inputs: vec![("me".to_string(), ValueType::This)], returns: None }),
        body: Arc::new(vec![]),
    };
    scope.declare("g", Value::Function(g.packaged()));
    let mut session = Session::new();
    let (result, _) = process(&vec![call("g", vec![number(1.0)])], Some(scope), &None, &mut session, &Floats);
    match result {
        Err(e) => assert_eq!(e.error, "Mismatching types for fn arg me: Number != Self[ Function ]"),
        other => panic!("no error: {:?}", other),
    }
    match run(vec![declare("f", None, function(vec![], None, vec![])), call("f", vec![number(1.0)])]).0 {
        Err(e) => assert_eq!(e.error, "Wrong number of arguments"),
        other => panic!("no error: {:?}", other),
    }
}

#[test]
fn struct_text_holds_every_field_whatever_their_order() {
    let make = |fields: Vec<(&str, f64)>| {
        Value::StructInstance(
            Arc::new(StructDefinition {
                name: "P".to_string(),
                fields: fields.iter().map(|f| (f.0.to_string(), ValueType::Number)).collect(),
            }),
            Arc::new(fields.iter().map(|f| (f.0.to_string(), Value::Number(f.1.to_bits()))).collect()),
        )
    };
    let one = flang::runtime::native::display_value(&Floats, &make(vec![("x", 1.0), ("y", 2.0)]));
    let other = flang::runtime::native::display_value(&Floats, &make(vec![("y", 2.0), ("x", 1.0)]));
    assert_eq!(one, "P {x: 1, y: 2}");
    assert_eq!(other, "P {y: 2, x: 1}");
    for piece in ["x: 1", "y: 2"] {
        assert!(one.contains(piece) && other.contains(piece));
    }
    assert_eq!(one, flang::runtime::native::display_value(&Floats, &make(vec![("x", 1.0), ("y", 2.0)])));
    assert_eq!(flang::runtime::native::display_value(&Floats, &Value::Undefined), "[Undefined]");
    assert_eq!(
        flang::runtime::native::display_value(&Floats, &Value::External("m".to_string(), Arc::new(Scope::new()))),
        "[Export m]"
    );
    assert_eq!(
        flang::runtime::native::display_value(&Floats, &Value::Return(Box::new(Value::Boolean(true)))),
        "true"
    );
}

#[test]
fn values_give_what_they_hold() {
    let n = Value::Number(2.5f64.to_bits());
    assert_eq!(n.as_number().map(f64::from_bits), Some(2.5));
    assert!(n.as_string().is_none() && n.as_boolean().is_none());
    assert!(n.as_function().is_none() && n.as_struct_instance().is_none());
    assert_eq!(Value::String("t".to_string()).as_string(), Some(&"t".to_string()));
    assert_eq!(Value::Boolean(true).as_boolean(), Some(true));
    assert!(matches!(Value::Undefined.into_function(), Err(Value::Undefined)));
    let g = BasicFunction {
        outline: Arc::new(FunctionOutline { inputs: vec![], returns: None }),
        body: Arc::new(vec![]),
    };
    let f = Value::Function(g.packaged());
    assert!(f.as_function().is_some());
    assert!(f.into_function().is_ok());
    let (_, instance) = point();
    let (def, fields) = instance.as_struct_instance().unwrap();
    assert_eq!(def.name, "Point");
    assert_eq!(fields.len(), 1);
}

#[test]
fn call_with_an_argument_without_value_fails() {
    let f = function(vec![("n", "any")], None, vec![ident("n")]);
    let tree = vec![declare("f", None, f), call("f", vec![ident("nothing")])];
    assert_eq!(kind(run(tree).0), ErrorKind::MissingValue);
}

#[test]
fn method_cannot_be_called_statically() {
    let f = function(vec![("self", "any")], None, vec![ident("self")]);
    let tree = vec![declare("f", None, f), call("f", vec![])];
    assert_eq!(kind(run(tree).0), ErrorKind::CannotCallMethodStatically);
}

#[test]
fn function_declaration_of_an_unknown_type_fails() {
    let tree = vec![function(vec![("n", "widget")], None, vec![])];
    assert_eq!(kind(run(tree).0), ErrorKind::UnknownType);
    let tree = vec![function(vec![("n", "number")], Some("widget"), vec![])];
    assert_eq!(kind(run(tree).0), ErrorKind::UnknownType);
}

#[test]
fn function_expression_is_a_function_value() {
    let tree = vec![function(vec![("n", "number")], Some("number"), vec![ident("n")])];
    match value(run(tree).0) {
        Value::Function(f) => {
            let outline = f.outline();
            assert_eq!(outline.inputs.len(), 1);
            assert_eq!(outline.inputs[0].0, "n");
            assert!(outline.inputs[0].1.same(&ValueType::Number));
            assert!(!f.wants_self());
        },
        other => panic!("no function: {:?}", other),
    }
}

#[test]
fn index_of_text_gives_the_character() {
    let tree = vec![
        declare("s", None, text("hello")),
        at(Expr::Index(Box::new(ident("s")), vec![call("index", vec![number(1.0)])])),
    ];
    assert_eq!(as_text(&value(run(tree).0)), "h");
    let tree = vec![at(Expr::Index(Box::new(text("hello")), vec![call("index", vec![number(5.0)])]))];
    assert_eq!(as_text(&value(run(tree).0)), "o");
    let tree = vec![at(Expr::Index(Box::new(text("h\u{e9}llo")), vec![call("index", vec![number(2.0)])]))];
    assert_eq!(as_text(&value(run(tree).0)), "\u{e9}");
}

#[test]
fn index_beyond_the_text_gives_undefined() {
    for i in [6.0, 0.0, -1.0, 1.5, f64::NAN, f64::INFINITY, 1.0e300] {
        let tree = vec![at(Expr::Index(Box::new(text("hello")), vec![call("index", vec![number(i)])]))];
        assert!(matches!(value(run(tree).0), Value::Undefined), "index {}", i);
    }
}

#[test]
fn empty_index_chain_gives_undefined() {
    let tree = vec![at(Expr::Index(Box::new(text("hello")), vec![]))];
    assert!(matches!(value(run(tree).0), Value::Undefined));
}

#[test]
fn index_without_value_fails() {
    let tree = vec![at(Expr::Index(Box::new(text("hello")), vec![ident("nothing")]))];
    assert_eq!(kind(run(tree).0), ErrorKind::UnknownIndex);
    let tree = vec![at(Expr::Index(Box::new(ident("nothing")), vec![ident("x")]))];
    assert_eq!(kind(run(tree).0), ErrorKind::UnknownIndex);
}

fn point() -> (StructDefinition, Value) {
    let def = StructDefinition {
        name: "Point".to_string(),
        fields: vec![("x".to_string(), ValueType::Number)],
    };
    let instance = Value::StructInstance(
        Arc::new(StructDefinition {
            name: "Point".to_string(),
            fields: vec![("x".to_string(), ValueType::Number)],
        }),
        Arc::new(vec![("x".to_string(), Value::Number(42.0f64.to_bits()))]),
    );
    (def, instance)
}

#[test]
fn index_of_a_struct_gives_the_field() {
    let (def, instance) = point();
    let mut scope = Scope::new();
    scope.define_struct("Point", def);
    scope.declare("p", instance);
    let mut session = Session::new();
    let tree = vec![at(Expr::Index(Box::new(ident("p")), vec![ident("x")]))];
    let (result, _) = process(&tree, Some(scope), &None, &mut session, &Floats);
    assert_eq!(as_number(&value(result)), 42.0);
}

#[test]
fn method_resolves_self_to_the_instance() {
    let (def, instance) = point();
    let mut scope = Scope::new();
    flang::runtime::_builtins::default_impl(&mut scope);
    scope.define_struct("Point", def);
    scope.declare("p", instance);
    let point_type = ValueType::from_str("Point", &scope).unwrap();
    let outline = FunctionOutline {
        inputs: vec![("self".to_string(), point_type.clone())],
        returns: Some(ValueType::Number),
    };
    let body = vec![at(Expr::Index(Box::new(ident("self")), vec![ident("x")]))];
    let method = BasicFunction { outline: Arc::new(outline), body: Arc::new(body) }.packaged();
    scope.declare_trait(&Arc::new(flang::runtime::traits::TraitDefinition {
        name: "HasX".to_string(),
        outlines: vec![],
        functions: vec![],
        restriction: None,
    }));
    scope.implement("HasX", vec![("get_x".to_string(), method)], point_type).unwrap();
    let mut session = Session::new();
    let tree = vec![at(Expr::Index(Box::new(ident("p")), vec![call("get_x", vec![])]))];
    let (result, _) = process(&tree, Some(scope), &None, &mut session, &Floats);
    assert_eq!(as_number(&value(result)), 42.0);
}

#[test]
fn terms_run_in_a_scope_of_their_own() {
    let tree = vec![
        declare("x", None, number(1.0)),
        at(Expr::Terms(vec![assign("x", number(2.0)), declare("y", None, number(3.0)), ident("x")])),
    ];
    let (result, scope, _) = run(tree);
    assert_eq!(as_number(&value(result)), 2.0);
    assert_eq!(as_number(&scope.get("x").unwrap()), 1.0);
    assert!(scope.get("y").is_none());
}

#[test]
fn terms_stop_at_a_return() {
    let tree = vec![at(Expr::Terms(vec![
        at(Expr::Return(Box::new(number(1.0)))),
        call("print", vec![text("unreached")]),
    ]))];
    let (result, _, mut session) = run(tree);
    assert!(matches!(value(result), Value::Return(_)));
    assert!(session.take_output().is_empty());
}

#[test]
fn print_writes_the_pretty_text() {
    let tree = vec![
        call("print", vec![number(1.5)]),
        call("print", vec![at(Expr::Boolean(false))]),
        call("print", vec![at(Expr::Undefined)]),
    ];
    let (result, _, mut session) = run(tree);
    assert!(matches!(value(result), Value::Undefined));
    assert_eq!(
        session.take_output(),
        vec![
            "\u{1b}[33m1.5\u{1b}[39m".to_string(),
            "\u{1b}[32mfalse\u{1b}[39m".to_string(),
            "\u{1b}[2mnull\u{1b}[0m".to_string(),
        ]
    );
    assert!(session.take_output().is_empty());
}

#[test]
fn print_of_a_struct_lists_its_fields() {
    let (def, instance) = point();
    let mut scope = Scope::new();
    flang::runtime::_builtins::default_impl(&mut scope);
    scope.define_struct("Point", def);
    scope.declare("p", instance);
    let mut session = Session::new();
    let tree = vec![call("print", vec![ident("p")]), call("print", vec![ident("print")])];
    let (result, _) = process(&tree, Some(scope), &None, &mut session, &Floats);
    assert!(result.is_ok());
    assert_eq!(
        session.take_output(),
        vec![
            "Point \u{1b}[34m{\u{1b}[39m x: \u{1b}[33m42\u{1b}[39m \u{1b}[34m}\u{1b}[39m".to_string(),
            "\u{1b}[35m[Builtin Function (Any) -> void]\u{1b}[39m".to_string(),
        ]
    );
}

#[test]
fn to_string_gives_the_plain_text() {
    let (def, instance) = point();
    let mut scope = Scope::new();
    flang::runtime::_builtins::default_impl(&mut scope);
    scope.define_struct("Point", def);
    scope.declare("p", instance);
    let mut session = Session::new();
    let tree = vec![at(Expr::Index(Box::new(ident("p")), vec![call("to_string", vec![])]))];
    let (result, scope) = process(&tree, Some(scope), &None, &mut session, &Floats);
    assert_eq!(as_text(&value(result)), "Point {x: 42}");
    let tree = vec![at(Expr::Index(Box::new(ident("p")), vec![call("to_string", vec![])]))];
    let (again, _) = process(&tree, Some(scope), &None, &mut session, &Floats);
    assert_eq!(as_text(&value(again)), "Point {x: 42}");
}

#[test]
fn clock_is_what_the_session_holds() {
    let mut session = Session::new();
    session.set_clock(1234.0f64.to_bits());
    let tree = vec![at(Expr::Index(Box::new(ident("time")), vec![call("current_unix", vec![])]))];
    let (result, _) = process(&tree, None, &None, &mut session, &Floats);
    assert_eq!(as_number(&value(result)), 1234.0);
}

#[test]
fn export_fills_the_module_and_import_exposes_it() {
    let mut session = Session::new();
    let module = Some("lib::tools".to_string());
    let tree = vec![
        at(Expr::Export(Box::new(declare("shared", None, number(5.0))))),
        declare("hidden", None, number(6.0)),
    ];
    let (result, scope) = process(&tree, None, &module, &mut session, &Floats);
    assert!(result.is_ok());
    assert!(scope.get("shared").is_some());
    assert!(!scope.exports());
    let exported = session.module("lib::tools").unwrap();
    assert_eq!(as_number(&exported.get("shared").unwrap()), 5.0);
    assert!(exported.get("hidden").is_none());

    let tree = vec![at(Expr::Import(exported.clone(), vec![])), ident("shared")];
    let (result, _) = process(&tree, None, &None, &mut session, &Floats);
    assert_eq!(as_number(&value(result)), 5.0);

    let tree = vec![
        at(Expr::Import(exported.clone(), vec!["shared".to_string(), "absent".to_string()])),
        ident("shared"),
    ];
    let (result, scope) = process(&tree, None, &None, &mut session, &Floats);
    assert_eq!(as_number(&value(result)), 5.0);
    assert!(scope.get("absent").is_none());
}

#[test]
fn export_outside_a_module_fails() {
    let tree = vec![at(Expr::Export(Box::new(number(1.0))))];
    assert_eq!(kind(run(tree).0), ErrorKind::NoModule);
}

#[test]
fn export_gives_the_value_of_its_expression() {
    let mut session = Session::new();
    let module = Some("m".to_string());
    let tree = vec![at(Expr::Export(Box::new(number(1.0))))];
    let (result, _) = process(&tree, None, &module, &mut session, &Floats);
    assert_eq!(as_number(&value(result)), 1.0);
    let tree = vec![at(Expr::Export(Box::new(ident("nothing"))))];
    let (result, _) = process(&tree, None, &module, &mut session, &Floats);
    assert!(matches!(value(result), Value::Undefined));
}

#[test]
fn nesting_beyond_the_limit_fails() {
    let mut session = Session::new();
    session.set_depth(3);
    let deep = add(add(add(number(1.0), number(1.0)), number(1.0)), number(1.0));
    let (result, _) = process(&vec![deep], None, &None, &mut session, &Floats);
    assert_eq!(kind(result), ErrorKind::DepthExceeded);
    session.set_depth(16);
    let deep = add(add(add(number(1.0), number(1.0)), number(1.0)), number(1.0));
    let (result, _) = process(&vec![deep], None, &None, &mut session, &Floats);
    assert_eq!(as_number(&value(result)), 4.0);
}

#[test]
fn endless_recursion_ends_in_an_error() {
    let body = vec![call("f", vec![ident("f")])];
    let tree = vec![
        declare("loop", None, function(vec![("f", "any")], None, body)),
        call("loop", vec![ident("loop")]),
    ];
    assert_eq!(kind(run(tree).0), ErrorKind::DepthExceeded);
}

#[test]
fn errors_point_at_the_expression() {
    let span = Span {
        byte_bounds: (3, 9),
        start: (0, 3),
        end: (0, 9),
        text: "x = 1".to_string(),
        source_file: "main.fl".to_string(),
    };
    let node = Expr::Assignment { ident: "x".to_string(), expr: Box::new(number(1.0)) }.context(span);
    let mut scope = Scope::new();
    let mut session = Session::new();
    match step(&node, &mut scope, &None, &mut session, &Floats) {
        Err(e) => {
            assert_eq!(e.kind, ErrorKind::UndefinedVariable);
            assert_eq!(e.error, "No variable named x to re-assign to.");
            assert_eq!(e.bounds, (3, 9));
            assert_eq!(e.source, Some("main.fl".to_string()));
            assert!(!e.fatal);
            assert_eq!(e.hint, None);
            assert_eq!(e.code, None);
        },
        other => panic!("no error: {:?}", other),
    }
}
