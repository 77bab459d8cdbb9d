use flang::runtime::scope::Scope;
use flang::runtime::session::Session;
use flang::runtime::types::Value;
use flang::runtime::Host;
use flang::sitter::expr::{ContextualExpr, Expr};
use flang::sitter::lower::{
    any_of_kind, build_ast_from_expr, build_ast_from_term, build_dyadic, imports, key_of, literal,
    parameters, parse, return_type_of, split_path, texts_of, Node,
};
use flang::sitter::op::Dyadic;
use flang::sitter::Span;

struct Floats;

impl Host for Floats {
    fn add_numbers(&self, left: u64, right: u64) -> u64 {
        bits_of(f64::from_bits(left) + f64::from_bits(right))
    }

    fn number_text(&self, number: u64) -> String {
        f64::from_bits(number).to_string()
    }

    fn parse_number(&self, text: &str) -> Option<u64> {
        text.parse::<f64>().ok().map(bits_of)
    }
}

fn bits_of(number: f64) -> u64 {
    if number.is_nan() {
        f64::NAN.to_bits()
    } else {
        number.to_bits()
    }
}

fn place(text: &str, at: usize) -> Span {
    Span {
        byte_bounds: (at, at + text.len()),
        start: (0, at),
        end: (0, at + text.len()),
        text: text.to_string(),
        source_file: "t.fl".to_string(),
    }
}

fn leaf(kind: &str, text: &str) -> Node {
    Node { kind: kind.to_string(), span: place(text, 0), extra: false, error: false, children: vec![] }
}

fn leaf_at(kind: &str, text: &str, at: usize) -> Node {
    Node { kind: kind.to_string(), span: place(text, at), extra: false, error: false, children: vec![] }
}

fn tree(kind: &str, text: &str, children: Vec<Node>) -> Node {
    Node { kind: kind.to_string(), span: place(text, 0), extra: false, error: false, children }
}

fn lower(node: &Node) -> Result<ContextualExpr, flang::errors::Error> {
    build_ast_from_expr(&Floats, node, &Session::new(), "app")
}

fn number_of(e: &Expr) -> f64 {
    match e {
        Expr::Number(bits) => f64::from_bits(*bits),
        other => panic!("no number: {:?}", other),
    }
}

#[test]
fn literals_are_lowered() {
    assert!(matches!(lower(&leaf("null", "null")).unwrap().0, Expr::Undefined));
    assert!(matches!(lower(&leaf("identifier", "abc")).unwrap().0, Expr::Ident(n) if n == "abc"));
    assert!(matches!(lower(&leaf("string", "\"s\"")).unwrap().0, Expr::String(n) if n == "\"s\""));
    assert_eq!(number_of(&lower(&leaf("number", "1.5")).unwrap().0), 1.5);
    assert!(matches!(lower(&leaf("boolean", "true")).unwrap().0, Expr::Boolean(true)));
    assert!(matches!(lower(&leaf("boolean", "false")).unwrap().0, Expr::Boolean(false)));
    let e = lower(&leaf_at("identifier", "abc", 7)).unwrap();
    assert_eq!(e.1.byte_bounds, (7, 10));
    assert_eq!(e.1.text, "abc");
    assert_eq!(e.1.source_file, "t.fl");
    assert!(literal(&Floats, &leaf("fn_call", "f()")).is_none());
    assert!(matches!(literal(&Floats, &leaf("null", "null")), Some(Ok(_))));
}

#[test]
fn malformed_literals_are_refused() {
    let e = lower(&leaf_at("number", "1.x", 3)).unwrap_err();
    assert_eq!(e.error, "invalid float literal");
    assert_eq!(e.bounds, (3, 6));
    let e = lower(&leaf("boolean", "yes")).unwrap_err();
    assert_eq!(e.error, "provided string was not `true` or `false`");
}

#[test]
fn unknown_kinds_are_refused() {
    let e = lower(&leaf("while", "while")).unwrap_err();
    assert_eq!(e.error, "Unimplemented expr");
    let e = lower(&leaf("literal", "1")).unwrap_err();
    assert_eq!(e.error, "Unimplemented expr");
}

#[test]
fn wrappers_are_passed_through() {
    let node = tree("thing", "1", vec![tree("expr", "1", vec![leaf("number", "1")])]);
    assert_eq!(number_of(&lower(&node).unwrap().0), 1.0);
    assert_eq!(lower(&tree("expr", "", vec![])).unwrap_err().error, "Malformed syntax tree");
}

#[test]
fn terms_are_lowered() {
    let one = tree("terms", "1", vec![tree("term", "1", vec![leaf("number", "1")])]);
    assert_eq!(number_of(&lower(&one).unwrap().0), 1.0);
    let literal = tree("term", "1", vec![tree("literal", "1", vec![leaf("number", "2")])]);
    assert_eq!(number_of(&lower(&literal).unwrap().0), 2.0);
    let two = tree("terms", "1 2", vec![leaf("number", "1"), leaf("identifier", "x")]);
    match lower(&two).unwrap().0 {
        Expr::Terms(list) => {
            assert_eq!(list.len(), 2);
            assert_eq!(number_of(&list[0].0), 1.0);
            assert!(matches!(&list[1].0, Expr::Ident(n) if n == "x"));
        },
        other => panic!("no terms: {:?}", other),
    }
    assert!(matches!(lower(&tree("terms", "", vec![])).unwrap().0, Expr::Terms(list) if list.is_empty()));
    assert!(lower(&tree("terms", "", vec![leaf("number", "1"), leaf("number", "x")])).is_err());
    let term = build_ast_from_term(&Floats, &tree("term_excl", "1", vec![leaf("number", "3")]), &Session::new(), "app");
    assert_eq!(number_of(&term.unwrap().0), 3.0);
    assert!(build_ast_from_term(&Floats, &tree("literal", "", vec![]), &Session::new(), "app").is_err());
    assert!(build_ast_from_term(&Floats, &tree("term", "", vec![]), &Session::new(), "app").is_err());
}

#[test]
fn return_and_export_are_lowered() {
    let r = tree("return", "return 1", vec![leaf("keyword", "return"), leaf("number", "1")]);
    assert!(matches!(lower(&r).unwrap().0, Expr::Return(e) if number_of(&e.0) == 1.0));
    let x = tree("export", "export 1", vec![leaf("keyword", "export"), leaf("number", "1")]);
    assert!(matches!(lower(&x).unwrap().0, Expr::Export(e) if number_of(&e.0) == 1.0));
    assert!(lower(&tree("return", "return", vec![leaf("keyword", "return")])).is_err());
}

#[test]
fn declarations_are_lowered() {
    let typed = tree(
        "var_decl",
        "let x: number = 1",
        vec![
            leaf("let", "let"),
            leaf("identifier", "x"),
            leaf("colon", ":"),
            leaf("typed", "number"),
            leaf("number", "1"),
        ],
    );
    match lower(&typed).unwrap().0 {
        Expr::Declaration { ident, typed, expr } => {
            assert_eq!(ident, "x");
            assert_eq!(typed, Some("number".to_string()));
            assert_eq!(number_of(&expr.0), 1.0);
        },
        other => panic!("no declaration: {:?}", other),
    }
    let plain = tree(
        "var_decl",
        "let x = 1",
        vec![leaf("let", "let"), leaf("identifier", "x"), leaf("equals", "="), leaf("number", "1")],
    );
    match lower(&plain).unwrap().0 {
        Expr::Declaration { ident, typed, .. } => {
            assert_eq!(ident, "x");
            assert_eq!(typed, None);
        },
        other => panic!("no declaration: {:?}", other),
    }
    let short = tree("var_decl", "let x", vec![leaf("let", "let"), leaf("identifier", "x")]);
    assert_eq!(lower(&short).unwrap_err().error, "Malformed syntax tree");
    let short = tree("var_decl", "let x:", vec![leaf("let", "let"), leaf("identifier", "x"), leaf("colon", ":")]);
    assert!(lower(&short).is_err());
}

#[test]
fn calls_are_lowered() {
    let call = tree(
        "fn_call",
        "f(1, x)",
        vec![
            leaf("identifier", "f"),
            leaf("open", "("),
            tree("args", "1, x", vec![leaf("number", "1"), leaf("comma", ","), leaf("identifier", "x")]),
            leaf("close", ")"),
        ],
    );
    match lower(&call).unwrap().0 {
        Expr::FunctionCall(name, args) => {
            assert_eq!(name, "f");
            assert_eq!(args.len(), 2);
            assert_eq!(number_of(&args[0].0), 1.0);
        },
        other => panic!("no call: {:?}", other),
    }
    assert!(lower(&tree("fn_call", "f", vec![leaf("identifier", "f")])).is_err());
}

fn declaration() -> Node {
    tree(
        "fn_decl",
        "fn (a: number, b: any): number { a; b }",
        vec![
            tree(
                "outline",
                "fn (a: number, b: any): number",
                vec![
                    leaf("fn", "fn"),
                    leaf("typed", "ignored"),
                    tree(
                        "typed_args",
                        "a: number, b: any",
                        vec![
                            tree("typed_arg", "a: number", vec![leaf("identifier", "a"), leaf("typed", ": number")]),
                            leaf("comma", ","),
                            tree("typed_arg", "b: any", vec![leaf("identifier", "b"), leaf("typed", "any")]),
                        ],
                    ),
                    leaf("typed", "number"),
                ],
            ),
            leaf("arrow", "=>"),
            tree(
                "block",
                "{ a; b }",
                vec![leaf("open", "{"), leaf("identifier", "a"), leaf("identifier", "b"), leaf("close", "}")],
            ),
        ],
    )
}

#[test]
fn function_declarations_are_lowered() {
    match lower(&declaration()).unwrap().0 {
        Expr::FunctionDeclaration { args, return_type, body } => {
            assert_eq!(
                args,
                vec![("a".to_string(), "number".to_string()), ("b".to_string(), "any".to_string())]
            );
            assert_eq!(return_type, Some("number".to_string()));
            assert_eq!(body.len(), 2);
            assert!(matches!(&body[0].0, Expr::Ident(n) if n == "a"));
            assert!(matches!(&body[1].0, Expr::Ident(n) if n == "b"));
        },
        other => panic!("no function: {:?}", other),
    }
    let mut bad = declaration();
    bad.children[2].children.truncate(1);
    assert_eq!(lower(&bad).unwrap_err().error, "Malformed syntax tree");
    let mut bad = declaration();
    bad.children[0].children[2].children[0].children.truncate(1);
    assert_eq!(lower(&bad).unwrap_err().error, "Malformed syntax tree");
    let mut bad = declaration();
    bad.children.truncate(2);
    assert!(lower(&bad).is_err());
    let mut empty = declaration();
    empty.children[2].children = vec![leaf("open", "{"), leaf("close", "}")];
    empty.children[0].children = vec![leaf("fn", "fn")];
    match lower(&empty).unwrap().0 {
        Expr::FunctionDeclaration { args, return_type, body } => {
            assert!(args.is_empty());
            assert_eq!(return_type, None);
            assert!(body.is_empty());
        },
        other => panic!("no function: {:?}", other),
    }
}

#[test]
fn outline_helpers_read_the_outline() {
    let outline = declaration().children.remove(0);
    assert_eq!(return_type_of(&outline.children), Some("number".to_string()));
    assert_eq!(parameters(&outline.children).unwrap().len(), 2);
    assert!(any_of_kind(&outline.children, "typed_args"));
    assert!(!any_of_kind(&outline.children, "colon"));
    assert_eq!(texts_of(&outline.children, 2), vec!["fn".to_string(), "ignored".to_string()]);
    assert!(texts_of(&outline.children, 0).is_empty());
    assert_eq!(return_type_of(&vec![]), None);
}

#[test]
fn operations_group_from_the_right() {
    let node = tree(
        "dyadic",
        "1 + 2 - 3",
        vec![
            leaf("number", "1"),
            leaf_at("verb", "+", 2),
            leaf("number", "2"),
            leaf_at("verb", "-", 6),
            leaf("number", "3"),
        ],
    );
    let lowered = lower(&node).unwrap();
    assert_eq!(lowered.1.text, "1 + 2 - 3");
    match lowered.0 {
        Expr::DyadicOp { verb, lhs, rhs } => {
            assert_eq!(verb, Dyadic::Add);
            assert_eq!(number_of(&lhs.0), 1.0);
            assert_eq!(rhs.1.byte_bounds, (6, 7));
            match rhs.0 {
                Expr::DyadicOp { verb, lhs, rhs } => {
                    assert_eq!(verb, Dyadic::Subtract);
                    assert_eq!(number_of(&lhs.0), 2.0);
                    assert_eq!(number_of(&rhs.0), 3.0);
                },
                other => panic!("no operation: {:?}", other),
            }
        },
        other => panic!("no operation: {:?}", other),
    }
    let single = tree("dyadic", "1", vec![leaf("number", "1")]);
    assert_eq!(number_of(&lower(&single).unwrap().0), 1.0);
    let even = tree("dyadic", "1 +", vec![leaf("number", "1"), leaf("verb", "+")]);
    assert_eq!(lower(&even).unwrap_err().error, "Malformed syntax tree");
    assert!(lower(&tree("dyadic", "", vec![])).is_err());
    let unknown = tree("dyadic", "1 % 2", vec![leaf("number", "1"), leaf_at("verb", "%", 2), leaf("number", "2")]);
    let e = lower(&unknown).unwrap_err();
    assert_eq!(e.error, "Failed to parse dyad");
    assert_eq!(e.bounds, (2, 3));
    let built = build_dyadic(&leaf("verb", "*"), lower(&leaf("number", "1")).unwrap(), lower(&leaf("number", "2")).unwrap());
    assert!(matches!(built.unwrap().0, Expr::DyadicOp { verb: Dyadic::Multiply, .. }));
}

#[test]
fn module_paths_are_split_and_keyed() {
    assert_eq!(split_path("a::b::c"), vec!["a".to_string(), "b".to_string(), "c".to_string()]);
    assert_eq!(split_path("a"), vec!["a".to_string()]);
    assert_eq!(split_path(""), vec![String::new()]);
    assert_eq!(split_path("a:::b"), vec!["a".to_string(), ":b".to_string()]);
    assert_eq!(split_path("a::"), vec!["a".to_string(), String::new()]);
    assert_eq!(split_path("::a"), vec![String::new(), "a".to_string()]);
    assert_eq!(split_path("a:b"), vec!["a:b".to_string()]);
    assert_eq!(split_path("a::::b"), vec!["a".to_string(), String::new(), "b".to_string()]);
    for s in ["a::b::c", "a", "", "a:::b", "a::", "::a", "a:b", "a::::b", ":::::"] {
        let expected: Vec<String> = s.split("::").map(|p| p.to_string()).collect();
        assert_eq!(split_path(s), expected, "{}", s);
    }
    assert_eq!(key_of("self::tools", "app"), "app::tools");
    assert_eq!(key_of("other::tools", "app"), "other::tools");
    assert_eq!(key_of("self", "app"), "app");
    assert_eq!(key_of("selfish::x", "app"), "selfish::x");
}

#[test]
fn imports_take_the_module_from_the_session() {
    let mut module = Scope::new();
    module.declare("shared", Value::Boolean(true));
    let mut session = Session::new();
    session.set_module("app::tools", module);
    let uses = tree(
        "uses",
        "uses a, b from self::tools",
        vec![leaf("identifier", "a"), leaf("identifier", "b"), leaf("path", "self::tools")],
    );
    match build_ast_from_expr(&Floats, &uses, &session, "app").unwrap().0 {
        Expr::Import(scope, names) => {
            assert!(scope.get("shared").is_some());
            assert_eq!(names, vec!["a".to_string(), "b".to_string()]);
        },
        other => panic!("no import: {:?}", other),
    }
    let unknown = tree("uses", "uses other", vec![leaf("path", "other::x")]);
    match build_ast_from_expr(&Floats, &unknown, &session, "app").unwrap().0 {
        Expr::Import(scope, names) => {
            assert!(scope.list_var().is_empty());
            assert!(names.is_empty());
        },
        other => panic!("no import: {:?}", other),
    }
    assert!(build_ast_from_expr(&Floats, &tree("uses", "uses", vec![]), &session, "app").is_err());
    let program = tree(
        "program",
        "",
        vec![uses, tree("block", "", vec![leaf("number", "1"), unknown]), tree("uses", "", vec![])],
    );
    let mut found = vec!["before".to_string()];
    imports(&program, &mut found);
    assert_eq!(found, vec!["before".to_string(), "self::tools".to_string(), "other::x".to_string()]);
}

#[test]
fn programs_are_parsed() {
    let mut comment = leaf("comment", "// c");
    comment.extra = true;
    let mut broken = leaf_at("ERROR", "@@", 9);
    broken.error = true;
    let root = tree("program", "", vec![leaf("number", "1"), comment, broken, leaf("identifier", "x")]);
    let (ast, errors) = parse(&Floats, &root, &Session::new(), "app").unwrap();
    assert_eq!(ast.len(), 2);
    assert_eq!(number_of(&ast[0].0), 1.0);
    assert!(matches!(&ast[1].0, Expr::Ident(n) if n == "x"));
    assert_eq!(errors.len(), 1);
    assert_eq!(errors[0].byte_bounds, (9, 11));
    let root = tree("program", "", vec![leaf("number", "1"), leaf("number", "x"), leaf("boolean", "x")]);
    assert_eq!(parse(&Floats, &root, &Session::new(), "app").unwrap_err().error, "invalid float literal");
    let (ast, errors) = parse(&Floats, &tree("program", "", vec![]), &Session::new(), "app").unwrap();
    assert!(ast.is_empty() && errors.is_empty());
}

#[test]
fn lowered_program_runs() {
    let root = tree(
        "program",
        "",
        vec![
            tree(
                "var_decl",
                "let x = 1",
                vec![leaf("let", "let"), leaf("identifier", "x"), leaf("equals", "="), leaf("number", "1")],
            ),
            tree("dyadic", "x + 2", vec![leaf("identifier", "x"), leaf("verb", "+"), leaf("number", "2")]),
        ],
    );
    let mut session = Session::new();
    let (ast, _) = parse(&Floats, &root, &session, "app").unwrap();
    let (result, _) = flang::runtime::process(&ast, None, &None, &mut session, &Floats);
    match result.unwrap().unwrap().0 {
        Value::Number(bits) => assert_eq!(f64::from_bits(bits), 3.0),
        other => panic!("no number: {:?}", other),
    }
}
