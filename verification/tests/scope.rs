use flang::errors::ErrorKind;
use flang::runtime::scope::Scope;
use flang::runtime::traits::{TraitDefinition, TraitInstance};
use flang::runtime::types::function::{BuiltinFunction, Function, FunctionOutline, Native};
use flang::runtime::types::structs::StructDefinition;
use flang::runtime::types::{Value, ValueType};
use std::sync::Arc;

fn number(n: f64) -> Value {
    Value::Number(n.to_bits())
}

fn as_number(v: &Value) -> f64 {
    match v {
        Value::Number(bits) => f64::from_bits(*bits),
        other => panic!("no number: {:?}", other),
    }
}

fn definition(name: &str, restriction: Option<ValueType>) -> Arc<TraitDefinition> {
    Arc::new(TraitDefinition {
        name: name.to_string(),
        outlines: vec![],
        functions: vec![],
        restriction: restriction.map(Box::new),
    })
}

fn method(handler: Native) -> Arc<Function> {
    BuiltinFunction {
        outline: Arc::new(FunctionOutline {
            inputs: vec![("self".to_string(), ValueType::Any)],
            returns: None,
        }),
        handler,
    }
    .packaged()
}

fn handler_of(f: &Function) -> Native {
    match f {
        Function::Builtin(b) => b.handler,
        other => panic!("no builtin: {:?}", other),
    }
}

#[test]
fn new_scope_is_empty() {
    let s = Scope::new();
    assert!(s.get("x").is_none());
    assert!(s.container().is_none());
    assert!(s.get_structdef("S").is_none());
    assert!(s.get_trait("T").is_none());
    assert_eq!(s.trait_count(), 0);
    assert!(!s.exports());
    assert!(s.list_var().is_empty());
}

#[test]
fn declare_binds_and_overwrites() {
    let mut s = Scope::new();
    s.declare("x", number(1.0));
    s.declare("y", Value::Boolean(true));
    assert_eq!(as_number(&s.get("x").unwrap()), 1.0);
    s.declare("x", Value::String("t".to_string()));
    assert!(matches!(&*s.get("x").unwrap(), Value::String(t) if t == "t"));
    assert!(matches!(&*s.get("y").unwrap(), Value::Boolean(true)));
    let names: Vec<String> = s.list_var().into_iter().map(|v| v.0).collect();
    assert_eq!(names, vec!["x".to_string(), "y".to_string()]);
}

#[test]
fn assign_needs_a_binding_of_the_same_type() {
    let mut s = Scope::new();
    assert_eq!(s.assign("x", number(1.0)).unwrap_err().kind, ErrorKind::UndefinedVariable);
    assert!(s.get("x").is_none());
    s.declare("x", number(1.0));
    assert!(s.assign("x", number(2.0)).is_ok());
    assert_eq!(as_number(&s.get("x").unwrap()), 2.0);
    let e = s.assign("x", Value::Undefined).unwrap_err();
    assert_eq!(e.kind, ErrorKind::TypeMismatch);
    assert_eq!(e.error, "Can't assign value of type Undefined to variable x, which has type Number");
    assert_eq!(as_number(&s.get("x").unwrap()), 2.0);
}

#[test]
fn child_is_a_snapshot() {
    let mut s = Scope::new();
    s.declare("x", number(1.0));
    s.declare_trait(&definition("T", None));
    s.define_struct("S", StructDefinition { name: "S".to_string(), fields: vec![] });
    let mut c = s.child();
    assert_eq!(as_number(&c.get("x").unwrap()), 1.0);
    assert!(c.get_trait("T").is_some());
    assert!(c.get_structdef("S").is_some());
    c.declare("x", number(2.0));
    c.declare("y", number(3.0));
    s.declare("z", number(4.0));
    assert_eq!(as_number(&s.get("x").unwrap()), 1.0);
    assert!(s.get("y").is_none());
    assert!(c.get("z").is_none());
}

#[test]
fn export_sink_mirrors_declarations() {
    let mut s = Scope::new();
    s.use_export(Scope::new());
    assert!(s.exports());
    s.declare("x", number(1.0));
    s.declare_trait(&definition("T", None));
    s.implement("T", vec![("m".to_string(), method(Native::Print))], ValueType::Any).unwrap();
    s.define_struct("S", StructDefinition { name: "S".to_string(), fields: vec![] });
    s.declare("x", number(5.0));
    assert!(s.assign("x", number(6.0)).is_ok());
    let sink = s.clear_export().unwrap();
    assert!(!s.exports());
    assert!(s.clear_export().is_none());
    assert_eq!(as_number(&sink.get("x").unwrap()), 5.0);
    assert_eq!(as_number(&s.get("x").unwrap()), 6.0);
    assert!(sink.get_structdef("S").is_some());
    assert_eq!(sink.get_trait("T").unwrap().1.len(), 1);
    s.declare("after", number(1.0));
    assert!(sink.get("after").is_none());
}

#[test]
fn implementing_an_undeclared_trait_fails() {
    let mut s = Scope::new();
    let e = s.implement("Nothing", vec![], ValueType::Any).unwrap_err();
    assert_eq!(e.kind, ErrorKind::UnknownTrait);
    assert_eq!(e.error, "No trait named Nothing available to implement.");
    let e = s
        .implement_trait("Nothing", |def| TraitInstance {
            def,
            overrides: vec![],
            restriction: Box::new(ValueType::Any),
        })
        .unwrap_err();
    assert_eq!(e.kind, ErrorKind::UnknownTrait);
}

#[test]
fn implement_trait_binds_the_instance_to_the_definition() {
    let mut s = Scope::new();
    s.declare_trait(&definition("T", None));
    s.implement_trait("T", |def| TraitInstance {
        def,
        overrides: vec![("m".to_string(), method(Native::ToString))],
        restriction: Box::new(ValueType::Number),
    })
    .unwrap();
    let found = s.get_trait_for(number(1.0), "T").unwrap();
    assert_eq!(found.def.name, "T");
    assert_eq!(handler_of(&found.get_function("m").unwrap()), Native::ToString);
    assert!(found.get_function("absent").is_none());
    assert!(s.get_trait_for(Value::Boolean(true), "T").is_none());
}

#[test]
fn traits_come_in_order_of_registration() {
    let mut s = Scope::new();
    s.declare_trait(&definition("A", None));
    s.declare_trait(&definition("B", None));
    s.implement("B", vec![("m".to_string(), method(Native::Print))], ValueType::Any).unwrap();
    s.implement("A", vec![("m".to_string(), method(Native::ToString))], ValueType::Number).unwrap();
    s.implement("A", vec![("m".to_string(), method(Native::ToPretty))], ValueType::Any).unwrap();
    s.implement("A", vec![("m".to_string(), method(Native::AddString))], ValueType::String).unwrap();
    let for_number = s.get_traits_for(number(1.0));
    let handlers: Vec<Native> =
        for_number.iter().map(|t| handler_of(&t.get_function("m").unwrap())).collect();
    assert_eq!(handlers, vec![Native::ToString, Native::ToPretty, Native::Print]);
    let for_text = s.get_traits_for(Value::String("t".to_string()));
    let handlers: Vec<Native> =
        for_text.iter().map(|t| handler_of(&t.get_function("m").unwrap())).collect();
    assert_eq!(handlers, vec![Native::ToPretty, Native::AddString, Native::Print]);
    let first = s.get_trait_for(Value::String("t".to_string()), "A").unwrap();
    assert_eq!(handler_of(&first.get_function("m").unwrap()), Native::ToPretty);
}

#[test]
fn number_never_reaches_the_text_implementation() {
    let mut s = Scope::new();
    flang::runtime::_builtins::default_impl(&mut s);
    let for_number = s.get_trait_for(number(1.0), "Add").unwrap();
    assert_eq!(handler_of(&for_number.get_function("add").unwrap()), Native::AddNumber);
    assert!(for_number.restriction.same(&ValueType::Number));
    let for_text = s.get_trait_for(Value::String("t".to_string()), "Add").unwrap();
    assert_eq!(handler_of(&for_text.get_function("add").unwrap()), Native::AddString);
    assert!(s.get_trait_for(Value::Boolean(true), "Add").is_none());
    for t in s.get_traits_for(number(1.0)) {
        assert!(t.restriction.matches(&number(1.0), &s));
        assert!(t.matches(&number(1.0), &s));
    }
}

#[test]
fn trait_restriction_closes_the_trait() {
    let mut s = Scope::new();
    s.declare_trait(&definition("OnlyText", Some(ValueType::String)));
    s.implement("OnlyText", vec![], ValueType::Any).unwrap();
    assert_eq!(s.get_traits_for(Value::String("t".to_string())).len(), 1);
    assert!(s.get_traits_for(number(1.0)).is_empty());
    let def = definition("OnlyText", Some(ValueType::String));
    assert!(s.implements(&Value::String("t".to_string()), &def));
    assert!(!s.implements(&number(1.0), &def));
    assert!(ValueType::Implements("OnlyText".to_string()).matches(&Value::String("t".to_string()), &s));
    assert!(!ValueType::Implements("OnlyText".to_string()).matches(&number(1.0), &s));
    assert!(!ValueType::Implements("Nothing".to_string()).matches(&number(1.0), &s));
}

#[test]
fn traits_that_need_each_other_end_the_search() {
    let mut s = Scope::new();
    s.declare_trait(&definition("A", None));
    s.declare_trait(&definition("B", None));
    s.implement("A", vec![], ValueType::Implements("B".to_string())).unwrap();
    s.implement("B", vec![], ValueType::Implements("A".to_string())).unwrap();
    assert!(!ValueType::Implements("A".to_string()).matches(&number(1.0), &s));
    s.implement("B", vec![], ValueType::Number).unwrap();
    assert!(ValueType::Implements("A".to_string()).matches(&number(1.0), &s));
}

#[test]
fn redeclaring_a_trait_forgets_its_implementations() {
    let mut s = Scope::new();
    s.declare_trait(&definition("A", None));
    s.declare_trait(&definition("B", None));
    s.implement("A", vec![], ValueType::Any).unwrap();
    assert_eq!(s.get_trait("A").unwrap().1.len(), 1);
    s.declare_trait(&definition("A", None));
    assert_eq!(s.get_trait("A").unwrap().1.len(), 0);
    assert_eq!(s.trait_count(), 2);
}

#[test]
fn child_for_var_holds_fields_and_methods() {
    let mut s = Scope::new();
    s.declare("outer", number(1.0));
    s.declare_trait(&definition("First", None));
    s.declare_trait(&definition("Second", None));
    s.implement("First", vec![("m".to_string(), method(Native::ToString))], ValueType::Any).unwrap();
    s.implement("Second", vec![("m".to_string(), method(Native::ToPretty)), ("n".to_string(), method(Native::Print))], ValueType::Any)
        .unwrap();
    let def = Arc::new(StructDefinition {
        name: "P".to_string(),
        fields: vec![("x".to_string(), ValueType::Number)],
    });
    let instance = Value::StructInstance(
        def,
        Arc::new(vec![("x".to_string(), number(1.0)), ("x".to_string(), number(2.0))]),
    );
    let c = s.child_for_var(instance);
    assert!(matches!(&*c.container().unwrap(), Value::StructInstance(..)));
    assert_eq!(as_number(&c.get("x").unwrap()), 2.0);
    assert!(c.get("outer").is_none());
    assert_eq!(c.trait_count(), 2);
    match &*c.get("m").unwrap() {
        Value::Function(f) => assert_eq!(handler_of(f), Native::ToString),
        other => panic!("no function: {:?}", other),
    }
    match &*c.get("n").unwrap() {
        Value::Function(f) => assert_eq!(handler_of(f), Native::Print),
        other => panic!("no function: {:?}", other),
    }
    let c = s.child_for_var(number(1.0));
    assert!(c.get("x").is_none());
    assert!(c.get("m").is_some());
}

#[test]
fn default_methods_stand_behind_overrides() {
    let mut s = Scope::new();
    s.declare_trait(&Arc::new(TraitDefinition {
        name: "T".to_string(),
        outlines: vec![],
        functions: vec![
            ("kept".to_string(), method(Native::Print)),
            ("replaced".to_string(), method(Native::Print)),
        ],
        restriction: None,
    }));
    s.implement("T", vec![("replaced".to_string(), method(Native::ToString))], ValueType::Any).unwrap();
    let t = s.get_trait_for(number(1.0), "T").unwrap();
    assert_eq!(handler_of(&t.get_function("kept").unwrap()), Native::Print);
    assert_eq!(handler_of(&t.get_function("replaced").unwrap()), Native::ToString);
    let c = s.child_for_var(number(1.0));
    match &*c.get("replaced").unwrap() {
        Value::Function(f) => assert_eq!(handler_of(f), Native::ToString),
        other => panic!("no function: {:?}", other),
    }
    assert!(c.get("kept").is_some());
}

#[test]
fn this_matches_the_type_of_the_container() {
    let s = Scope::new();
    assert!(!ValueType::This.matches(&number(1.0), &s));
    let c = s.child_for_var(number(5.0));
    assert!(ValueType::This.matches(&number(1.0), &c));
    assert!(!ValueType::This.matches(&Value::Boolean(true), &c));
    assert!(ValueType::Any.matches(&Value::Boolean(true), &s));
}

#[test]
fn absorb_copies_everything_and_is_idempotent() {
    let mut src = Scope::new();
    src.declare("a", number(1.0));
    src.declare("b", number(2.0));
    src.define_struct("S", StructDefinition { name: "S".to_string(), fields: vec![] });
    src.declare_trait(&definition("T", None));
    src.implement("T", vec![], ValueType::Any).unwrap();
    let mut s = Scope::new();
    s.declare("a", Value::Boolean(false));
    s.declare("own", number(9.0));
    s.absorb(&src);
    assert_eq!(as_number(&s.get("a").unwrap()), 1.0);
    assert_eq!(as_number(&s.get("b").unwrap()), 2.0);
    assert_eq!(as_number(&s.get("own").unwrap()), 9.0);
    assert!(s.get_structdef("S").is_some());
    assert_eq!(s.get_trait("T").unwrap().1.len(), 1);
    s.absorb(&src);
    assert_eq!(as_number(&s.get("a").unwrap()), 1.0);
    assert_eq!(as_number(&s.get("b").unwrap()), 2.0);
    assert_eq!(s.list_var().len(), 3);
    assert_eq!(s.get_trait("T").unwrap().1.len(), 1);
    assert_eq!(s.trait_count(), 1);
}

#[test]
fn absorb_named_copies_one_name() {
    let mut src = Scope::new();
    src.declare("a", number(1.0));
    src.declare("b", number(2.0));
    src.define_struct("b", StructDefinition { name: "b".to_string(), fields: vec![] });
    src.declare_trait(&definition("b", None));
    let mut s = Scope::new();
    s.absorb_named(&src, "b");
    assert!(s.get("a").is_none());
    assert_eq!(as_number(&s.get("b").unwrap()), 2.0);
    assert!(s.get_structdef("b").is_some());
    assert!(s.get_trait("b").is_some());
    s.absorb_named(&src, "absent");
    assert_eq!(s.list_var().len(), 1);
}
