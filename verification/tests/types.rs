use flang::runtime::scope::Scope;
use flang::runtime::traits::TraitDefinition;
use flang::runtime::types::function::{BasicFunction, BuiltinFunction, FunctionOutline, Native};
use flang::runtime::types::structs::StructDefinition;
use flang::runtime::types::{ContextualValue, Value, ValueType};
use flang::sitter::Span;
use std::sync::Arc;

fn number(n: f64) -> Value {
    Value::Number(n.to_bits())
}

fn instance(name: &str, fields: Vec<(&str, ValueType, Value)>) -> Value {
    let def = StructDefinition {
        name: name.to_string(),
        fields: fields.iter().map(|f| (f.0.to_string(), f.1.clone())).collect(),
    };
    Value::StructInstance(
        Arc::new(def),
        Arc::new(fields.into_iter().map(|f| (f.0.to_string(), f.2)).collect()),
    )
}

fn outline(inputs: Vec<(&str, ValueType)>, returns: Option<ValueType>) -> Arc<FunctionOutline> {
    Arc::new(FunctionOutline {
        inputs: inputs.into_iter().map(|(n, t)| (n.to_string(), t)).collect(),
        returns,
    })
}

fn function(inputs: Vec<(&str, ValueType)>, returns: Option<ValueType>) -> Value {
    Value::Function(BasicFunction { outline: outline(inputs, returns), body: Arc::new(vec![]) }.packaged())
}

#[test]
fn values_of_one_variant_have_one_type() {
    let s = Scope::new();
    let samples = vec![
        number(1.0),
        Value::String("a".to_string()),
        Value::Boolean(true),
        Value::Undefined,
    ];
    let others = vec![
        number(-7.5),
        Value::String(String::new()),
        Value::Boolean(false),
        Value::Undefined,
    ];
    for (i, a) in samples.iter().enumerate() {
        for (j, b) in others.iter().enumerate() {
            assert_eq!(a.type_of().matches(b, &s), i == j, "{:?} {:?}", a, b);
            assert_eq!(a.type_of().same(&b.type_of()), i == j);
        }
    }
}

#[test]
fn struct_types_are_their_shapes() {
    let s = Scope::new();
    let a = instance("A", vec![("x", ValueType::Number, number(1.0)), ("y", ValueType::String, Value::Undefined)]);
    let same_shape = instance("B", vec![("y", ValueType::String, Value::Undefined), ("x", ValueType::Number, number(2.0))]);
    let other_type = instance("A", vec![("x", ValueType::Number, number(1.0)), ("y", ValueType::Boolean, Value::Undefined)]);
    let fewer = instance("A", vec![("x", ValueType::Number, number(1.0))]);
    let more = instance(
        "A",
        vec![
            ("x", ValueType::Number, number(1.0)),
            ("y", ValueType::String, Value::Undefined),
            ("z", ValueType::Any, Value::Undefined),
        ],
    );
    let shadowed = instance(
        "A",
        vec![
            ("y", ValueType::Boolean, Value::Undefined),
            ("x", ValueType::Number, number(1.0)),
            ("y", ValueType::String, Value::Undefined),
        ],
    );
    assert!(a.type_of().matches(&same_shape, &s));
    assert!(same_shape.type_of().matches(&a, &s));
    assert!(a.type_of().matches(&shadowed, &s));
    assert!(!a.type_of().matches(&other_type, &s));
    assert!(!a.type_of().matches(&fewer, &s));
    assert!(!fewer.type_of().matches(&a, &s));
    assert!(!a.type_of().matches(&more, &s));
    assert!(!a.type_of().matches(&number(1.0), &s));
    assert!(instance("E", vec![]).type_of().matches(&instance("F", vec![]), &s));
}

#[test]
fn nested_struct_types_are_compared_by_shape() {
    let inner = |t: ValueType| {
        ValueType::StructInstance(Arc::new(StructDefinition {
            name: "I".to_string(),
            fields: vec![("v".to_string(), t)],
        }))
    };
    let a = instance("O", vec![("i", inner(ValueType::Number), Value::Undefined)]);
    let b = instance("O", vec![("i", inner(ValueType::Number), Value::Undefined)]);
    let c = instance("O", vec![("i", inner(ValueType::String), Value::Undefined)]);
    assert!(a.type_of().same(&b.type_of()));
    assert!(!a.type_of().same(&c.type_of()));
}

#[test]
fn function_types_are_their_outlines() {
    let s = Scope::new();
    let f = function(vec![("a", ValueType::Number)], Some(ValueType::Number));
    let same = function(vec![("a", ValueType::Number)], Some(ValueType::Number));
    let other_name = function(vec![("b", ValueType::Number)], Some(ValueType::Number));
    let other_type = function(vec![("a", ValueType::String)], Some(ValueType::Number));
    let other_return = function(vec![("a", ValueType::Number)], None);
    let more = function(vec![("a", ValueType::Number), ("b", ValueType::Number)], Some(ValueType::Number));
    let builtin = Value::Function(
        BuiltinFunction { outline: outline(vec![("a", ValueType::Number)], Some(ValueType::Number)), handler: Native::Print }
            .packaged(),
    );
    assert!(f.type_of().matches(&same, &s));
    assert!(f.type_of().matches(&builtin, &s));
    assert!(!f.type_of().matches(&other_name, &s));
    assert!(!f.type_of().matches(&other_type, &s));
    assert!(!f.type_of().matches(&other_return, &s));
    assert!(!other_return.type_of().matches(&f, &s));
    assert!(!f.type_of().matches(&more, &s));
}

#[test]
fn module_types_are_their_names() {
    let a = Value::External("m".to_string(), Arc::new(Scope::new()));
    let b = Value::External("m".to_string(), Arc::new(Scope::new()));
    let c = Value::External("n".to_string(), Arc::new(Scope::new()));
    assert!(a.type_of().same(&b.type_of()));
    assert!(!a.type_of().same(&c.type_of()));
    assert!(ValueType::Export("m".to_string()).same(&a.type_of()));
}

#[test]
fn returned_value_has_the_type_of_the_value() {
    let s = Scope::new();
    let r = Value::Return(Box::new(Value::Return(Box::new(number(1.0)))));
    assert!(r.type_of().same(&ValueType::Number));
    assert!(ValueType::Number.matches(&r, &s));
    assert!(!ValueType::String.matches(&r, &s));
}

#[test]
fn conditions_are_types_of_their_own() {
    assert!(ValueType::Any.same(&ValueType::Any));
    assert!(ValueType::This.same(&ValueType::This));
    assert!(!ValueType::Any.same(&ValueType::This));
    assert!(ValueType::Implements("A".to_string()).same(&ValueType::Implements("A".to_string())));
    assert!(!ValueType::Implements("A".to_string()).same(&ValueType::Implements("B".to_string())));
    assert!(!ValueType::Implements("A".to_string()).same(&ValueType::Export("A".to_string())));
}

#[test]
fn type_names_are_resolved_in_the_scope() {
    let mut s = Scope::new();
    assert!(ValueType::from_str("number", &s).unwrap().same(&ValueType::Number));
    assert!(ValueType::from_str("string", &s).unwrap().same(&ValueType::String));
    assert!(ValueType::from_str("bool", &s).unwrap().same(&ValueType::Boolean));
    assert!(ValueType::from_str("null", &s).unwrap().same(&ValueType::Undefined));
    assert!(ValueType::from_str("any", &s).unwrap().same(&ValueType::Any));
    assert!(ValueType::from_str("Point", &s).is_none());
    assert!(ValueType::from_str("uses Shown", &s).is_none());
    assert!(ValueType::from_str("uses ", &s).is_none());
    assert!(ValueType::from_str("uses", &s).is_none());
    assert!(ValueType::from_str("", &s).is_none());
    s.define_struct(
        "Point",
        StructDefinition { name: "Point".to_string(), fields: vec![("x".to_string(), ValueType::Number)] },
    );
    s.declare_trait(&Arc::new(TraitDefinition {
        name: "Shown".to_string(),
        outlines: vec![],
        functions: vec![],
        restriction: None,
    }));
    let point = instance("Other", vec![("x", ValueType::Number, number(1.0))]);
    assert!(ValueType::from_str("Point", &s).unwrap().same(&point.type_of()));
    assert!(ValueType::from_str("uses Shown", &s)
        .unwrap()
        .same(&ValueType::Implements("Shown".to_string())));
    assert!(ValueType::from_str("usesShown", &s).is_none());
}

#[test]
fn copies_are_equal_in_type() {
    let v = instance("A", vec![("x", ValueType::Number, number(1.0))]);
    let w = v.clone();
    assert!(v.type_of().same(&w.type_of()));
    let t = ValueType::Implements("A".to_string());
    assert!(t.clone().same(&t));
    let c = ContextualValue(number(1.0), Span::anonymous());
    let d = c.clone();
    assert!(matches!(d.0, Value::Number(bits) if f64::from_bits(bits) == 1.0));
    assert_eq!(d.1.byte_bounds, (0, 0));
    assert_eq!(d.1.text, "");
    assert_eq!(d.1.source_file, "");
}

#[test]
fn methods_are_known_by_their_first_parameter() {
    let m = BasicFunction { outline: outline(vec![("self", ValueType::Any)], None), body: Arc::new(vec![]) };
    assert!(m.wants_self());
    let f = BasicFunction {
        outline: outline(vec![("a", ValueType::Any), ("self", ValueType::Any)], None),
        body: Arc::new(vec![]),
    };
    assert!(!f.wants_self());
    let n = BuiltinFunction { outline: outline(vec![], None), handler: Native::Print };
    assert!(!n.wants_self());
    assert!(n.outline().inputs.is_empty());
    assert!(m.packaged().wants_self());
}
