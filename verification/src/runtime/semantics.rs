//! What the evaluator computes, as mathematics: the meaning of every
//! expression as a function of the scope, the run, and the nesting allowed.

use vstd::prelude::*;
use crate::errors::{anonymous_error, runtime_error, ErrorKind, ErrorView};
use crate::number::whole_of;
use crate::runtime::scope::ScopeView;
use crate::runtime::session::SessionView;
use crate::runtime::types::function::{FunctionView, Native, OutlineView};
use crate::runtime::types::{TypeView, ValueView};
use crate::runtime::Host;
use crate::sitter::expr::{ContextualExpr, Expr};
use crate::sitter::SpanView;

verus! {

/// A value with its place, or nothing; or an error.
pub type Outcome = Result<Option<(ValueView, SpanView)>, ErrorView>;

/// What evaluating an expression gives, and the scope and run it leaves.
pub ghost struct Evaluated {
    pub result: Outcome,
    pub scope: ScopeView,
    pub session: SessionView,
}

/// What evaluating arguments gives, in order, and the scope and run it leaves.
pub ghost struct Arguments {
    pub result: Result<Seq<(ValueView, SpanView)>, ErrorView>,
    pub scope: ScopeView,
    pub session: SessionView,
}

/// What a call gives, and the run it leaves.
pub ghost struct Called {
    pub result: Outcome,
    pub session: SessionView,
}

/// How far an index chain has come: the value reached, and the value that the
/// next step is looked up in.
pub ghost struct Link {
    pub result: Result<(ValueView, SpanView), ErrorView>,
    pub holder: ValueView,
    pub session: SessionView,
}

/// Text, or an error, and the run that making it leaves.
pub ghost struct Rendered {
    pub result: Result<Seq<char>, ErrorView>,
    pub session: SessionView,
}

/// What a type's name that stands for no type says.
pub open spec fn unknown_type_message(name: Seq<char>) -> Seq<char> {
    "Unknown type "@ + name + "."@
}

/// What a declaration whose value is not of the declared type says.
pub open spec fn declared_mismatch_message(ident: Seq<char>, ty: Seq<char>) -> Seq<char> {
    "Variable "@ + ident + " is not of type "@ + ty
}

/// What a call of a name that is bound to no function says.
pub open spec fn no_function_message(ident: Seq<char>) -> Seq<char> {
    "No function exists with the name "@ + ident
}

/// What an operator that no trait implements for the operand says.
pub open spec fn no_operator_message(name: Seq<char>) -> Seq<char> {
    "No implementation of "@ + name + " for this value"@
}

/// What a call with an argument of the wrong type says: the parameter, the
/// type of the argument, and the type that the parameter asks for.
pub open spec fn argument_mismatch_message(
    name: Seq<char>,
    actual: TypeView,
    expected: TypeView,
    scope: ScopeView,
) -> Seq<char> {
    "Mismatching types for fn arg "@ + name + ": "@ + type_label(actual) + " != "@
        + expected_label(expected, scope)
}

/// The name by which the type that a parameter asks for is shown: for `This`,
/// with the type of the value that the scope was made for.
pub open spec fn expected_label(expected: TypeView, scope: ScopeView) -> Seq<char> {
    match expected {
        TypeView::This => "Self[ "@ + type_label(
            match scope.for_var {
                Some(c) => c.type_of(),
                None => TypeView::Undefined,
            },
        ) + " ]"@,
        _ => type_label(expected),
    }
}

/// What a call of a method without a value to be its `self` says.
pub open spec fn static_call_message() -> Seq<char> {
    "Function taking parameter 'self' cannot be called statically"@
}

/// What an operator between operands of different types says.
pub open spec fn dyadic_mismatch_message() -> Seq<char> {
    "Can't perform dyadic operations on differing types."@
}

/// What an export where no module is being evaluated says.
pub open spec fn no_module_message() -> Seq<char> {
    "Can't export in a non-path based environment"@
}

/// What an operand without a value says.
pub open spec fn missing_value_message() -> Seq<char> {
    "Expression has no value"@
}

/// What a step of an index chain without a value says.
pub open spec fn unknown_index_message() -> Seq<char> {
    "Index doesnt exist"@
}

/// What a call with too few or too many arguments says.
pub open spec fn argument_count_message() -> Seq<char> {
    "Wrong number of arguments"@
}

/// What an evaluation that nests too deep says.
pub open spec fn depth_message() -> Seq<char> {
    "Nested too deep"@
}

/// The value of no value, at no place.
pub open spec fn undefined() -> (ValueView, SpanView) {
    (ValueView::Undefined, SpanView::anonymous())
}

/// The name by which a type is shown.
pub open spec fn type_label(t: TypeView) -> Seq<char> {
    match t {
        TypeView::Number => "Number"@,
        TypeView::String => "String"@,
        TypeView::Boolean => "Boolean"@,
        TypeView::StructInstance(_) => "StructInstance"@,
        TypeView::Function(_) => "Function"@,
        TypeView::Undefined => "Undefined"@,
        TypeView::This => "Self"@,
        TypeView::Any => "Any"@,
        TypeView::Implements(_) => "Implements"@,
        TypeView::Export(name) => "Export("@ + name + ")"@,
    }
}

/// The names of the types of the first `n` parameters, with commas between.
pub open spec fn labels(inputs: Seq<(Seq<char>, TypeView)>, n: nat) -> Seq<char>
    decreases n,
{
    if n == 0 || n > inputs.len() {
        Seq::empty()
    } else if n == 1 {
        type_label(inputs[0].1)
    } else {
        labels(inputs, (n - 1) as nat) + ", "@ + type_label(inputs[n - 1].1)
    }
}

/// The text for a function: its kind, the types of its parameters, and the
/// type it returns, `void` where it returns none.
pub open spec fn function_text(f: FunctionView) -> Seq<char> {
    let outline = f.outline();
    (match f {
        FunctionView::Basic { .. } => "[Function ("@,
        FunctionView::Builtin { .. } => "[Builtin Function ("@,
    }) + labels(outline.inputs, outline.inputs.len()) + ") -> "@ + (match outline.returns {
        Some(t) => type_label(*t),
        None => "void"@,
    }) + "]"@
}

/// The text for a truth value.
pub open spec fn boolean_text(b: bool) -> Seq<char> {
    if b {
        "true"@
    } else {
        "false"@
    }
}

/// The text for a value: a number as the host writes it, text as it is, a
/// struct instance by its name and its fields in their order, each with its
/// own text.
pub open spec fn display<H: Host>(host: &H, v: ValueView) -> Seq<char>
    decreases v, 0nat,
{
    match v {
        ValueView::Number(bits) => host.text(bits),
        ValueView::String(text) => text,
        ValueView::Boolean(b) => boolean_text(b),
        ValueView::StructInstance { name, fields, .. } => name + " {"@ + display_fields(
            host,
            fields,
            fields.len(),
        ) + "}"@,
        ValueView::Function(f) => function_text(f),
        ValueView::Undefined => "[Undefined]"@,
        ValueView::External(name, _) => "[Export "@ + name + "]"@,
        ValueView::Return(inner) => display(host, *inner),
    }
}

/// The text for the first `n` of `fields`: each as its name, a colon and the
/// text of its value, with commas between.
pub open spec fn display_fields<H: Host>(
    host: &H,
    fields: Seq<(Seq<char>, ValueView)>,
    n: nat,
) -> Seq<char>
    decreases fields, n,
{
    if n == 0 || n > fields.len() {
        Seq::empty()
    } else {
        display_fields(host, fields, (n - 1) as nat) + (if n > 1 {
            ", "@
        } else {
            Seq::empty()
        }) + fields[n - 1].0 + ": "@ + display(host, fields[n - 1].1)
    }
}

/// Text in yellow: between the escape sequences that set a yellow and the
/// default foreground.
pub open spec fn yellow_text(s: Seq<char>) -> Seq<char> {
    "\x1b[33m"@ + s + "\x1b[39m"@
}

/// Text in green.
pub open spec fn green_text(s: Seq<char>) -> Seq<char> {
    "\x1b[32m"@ + s + "\x1b[39m"@
}

/// Text in cyan.
pub open spec fn cyan_text(s: Seq<char>) -> Seq<char> {
    "\x1b[36m"@ + s + "\x1b[39m"@
}

/// Text in blue.
pub open spec fn blue_text(s: Seq<char>) -> Seq<char> {
    "\x1b[34m"@ + s + "\x1b[39m"@
}

/// Text in magenta.
pub open spec fn magenta_text(s: Seq<char>) -> Seq<char> {
    "\x1b[35m"@ + s + "\x1b[39m"@
}

/// Text dimmed: between the escape sequence for a dim rendition and the one
/// that resets all renditions.
pub open spec fn dimmed_text(s: Seq<char>) -> Seq<char> {
    "\x1b[2m"@ + s + "\x1b[0m"@
}

/// The types that the first `n` parameter declarations name, or the first
/// name among them that stands for no type.
pub open spec fn resolve_params(s: ScopeView, args: Seq<(String, String)>, n: nat) -> Result<
    Seq<(Seq<char>, TypeView)>,
    Seq<char>,
>
    decreases n,
{
    if n == 0 || n > args.len() {
        Ok(Seq::empty())
    } else {
        match resolve_params(s, args, (n - 1) as nat) {
            Err(name) => Err(name),
            Ok(inputs) => match s.resolve_type(args[n - 1].1@) {
                Some(ty) => Ok(inputs.push((args[n - 1].0@, ty))),
                None => Err(args[n - 1].1@),
            },
        }
    }
}

/// The outline that a function declaration stands for, or the first type
/// name in it that stands for no type.
pub open spec fn resolve_outline(
    s: ScopeView,
    args: Seq<(String, String)>,
    return_type: Option<String>,
) -> Result<OutlineView, Seq<char>> {
    match resolve_params(s, args, args.len()) {
        Err(name) => Err(name),
        Ok(inputs) => match return_type {
            None => Ok(OutlineView { inputs, returns: None }),
            Some(t) => match s.resolve_type(t@) {
                Some(ty) => Ok(OutlineView { inputs, returns: Some(Box::new(ty)) }),
                None => Err(t@),
            },
        },
    }
}

/// The scope in which a function runs, with the first `n` arguments bound to
/// its parameters, or the error of the first argument that is not of its
/// parameter's type. The scope is made for the function itself, from the
/// scope of the call.
pub open spec fn bind_args(
    f: FunctionView,
    args: Seq<(ValueView, SpanView)>,
    caller: ScopeView,
    n: nat,
) -> Result<ScopeView, ErrorView>
    decreases n,
{
    let inputs = f.outline().inputs;
    if n == 0 || n > inputs.len() || n > args.len() {
        Ok(caller.child_for_var(ValueView::Function(f)))
    } else {
        match bind_args(f, args, caller, (n - 1) as nat) {
            Err(e) => Err(e),
            Ok(scope) => if scope.matches(inputs[n - 1].1, args[n - 1].0) {
                Ok(scope.declare(inputs[n - 1].0, args[n - 1].0))
            } else {
                Err(
                    runtime_error(
                        ErrorKind::ArgumentTypeMismatch,
                        argument_mismatch_message(
                            inputs[n - 1].0,
                            args[n - 1].0.type_of(),
                            inputs[n - 1].1,
                            scope,
                        ),
                        args[n - 1].1,
                    ),
                )
            },
        }
    }
}

/// The scope in which a call of `f` with `args` runs, or the error of the
/// call: as many arguments as parameters, each of its parameter's type.
pub open spec fn declare_spec(f: FunctionView, args: Seq<(ValueView, SpanView)>, caller: ScopeView) -> Result<
    ScopeView,
    ErrorView,
> {
    if args.len() != f.outline().inputs.len() {
        Err(anonymous_error(ErrorKind::ArgumentTypeMismatch, argument_count_message()))
    } else {
        bind_args(f, args, caller, args.len())
    }
}

/// The method `method` of the first implementation for `v` of the trait
/// named `name`.
pub open spec fn method_for(s: ScopeView, v: ValueView, name: Seq<char>, method: Seq<char>) -> Option<
    FunctionView,
> {
    match s.trait_for(v, name) {
        Some(inst) => inst.get_function(method),
        None => None,
    }
}

/// The scope after the first `n` of `names` were copied into it from `src`.
pub open spec fn absorb_names(s: ScopeView, src: ScopeView, names: Seq<String>, n: nat) -> ScopeView
    decreases n,
{
    if n == 0 || n > names.len() {
        s
    } else {
        absorb_names(s, src, names, (n - 1) as nat).absorb_named(src, names[n - 1]@)
    }
}

/// A result without the mark of a return around its value, if it has one.
pub open spec fn returned(result: Outcome) -> Outcome {
    match result {
        Ok(Some((ValueView::Return(inner), span))) => Ok(Some((*inner, span))),
        _ => result,
    }
}

/// The variable `name` of a scope, nothing where it is not bound.
pub open spec fn variable(s: ScopeView, name: Seq<char>) -> ValueView {
    if s.variables.contains_key(name) {
        s.variables[name]
    } else {
        ValueView::Undefined
    }
}

/// The character of `text` at the place that the number `bits` gives,
/// counted from 1, as text; nothing where the number is no such place.
pub open spec fn indexed(text: Seq<char>, bits: u64) -> ValueView {
    match whole_of(bits) {
        Some(i) => if 1 <= i <= text.len() {
            ValueView::String(seq![text[i - 1]])
        } else {
            ValueView::Undefined
        },
        None => ValueView::Undefined,
    }
}

/// The error of an evaluation that went deeper than the run allows.
pub open spec fn too_deep(span: SpanView) -> ErrorView {
    runtime_error(ErrorKind::DepthExceeded, depth_message(), span)
}

/// The meaning of the expression `node` in the scope `s` of the module `p`,
/// where evaluation may nest `depth` deep.
#[verifier::opaque]
pub open spec fn eval<H: Host>(
    host: &H,
    node: ContextualExpr,
    s: ScopeView,
    p: Option<Seq<char>>,
    ses: SessionView,
    depth: nat,
) -> Evaluated
    decreases depth, 0nat, 0nat,
{
    let span = node.1.view();
    if depth == 0 {
        Evaluated { result: Err(too_deep(span)), scope: s, session: ses }
    } else {
        let d = (depth - 1) as nat;
        match node.0 {
            Expr::Number(bits) => Evaluated {
                result: Ok(Some((ValueView::Number(bits), span))),
                scope: s,
                session: ses,
            },
            Expr::Boolean(b) => Evaluated {
                result: Ok(Some((ValueView::Boolean(b), span))),
                scope: s,
                session: ses,
            },
            Expr::String(text) => Evaluated {
                result: Ok(Some((ValueView::String(text@), span))),
                scope: s,
                session: ses,
            },
            Expr::Undefined => Evaluated {
                result: Ok(Some((ValueView::Undefined, span))),
                scope: s,
                session: ses,
            },
            Expr::Ident(name) => Evaluated {
                result: Ok(
                    if s.variables.contains_key(name@) {
                        Some((s.variables[name@], span))
                    } else {
                        None
                    },
                ),
                scope: s,
                session: ses,
            },
            Expr::Terms(list) => {
                let b = eval_block(host, list@, list@.len(), s.child(), p, ses, d);
                Evaluated { result: b.result, scope: s, session: b.session }
            },
            Expr::Declaration { ident, typed, expr } => {
                let e = eval(host, *expr, s, p, ses, d);
                match e.result {
                    Err(_) => e,
                    Ok(None) => Evaluated {
                        result: Err(
                            runtime_error(ErrorKind::MissingValue, missing_value_message(), span),
                        ),
                        ..e
                    },
                    Ok(Some(v)) => match declaration_error(e.scope, ident@, typed, v.0, span) {
                        Some(error) => Evaluated { result: Err(error), ..e },
                        None => Evaluated {
                            result: Ok(Some(v)),
                            scope: e.scope.declare(ident@, v.0),
                            session: e.session,
                        },
                    },
                }
            },
            Expr::Assignment { ident, expr } => {
                let e = eval(host, *expr, s, p, ses, d);
                match e.result {
                    Err(_) => e,
                    Ok(found) => {
                        let v = match found {
                            Some(v) => v,
                            None => undefined(),
                        };
                        match e.scope.assign_error(ident@, v.0) {
                            Some(error) => Evaluated {
                                result: Err(runtime_error(error.kind, error.error, span)),
                                ..e
                            },
                            None => Evaluated {
                                result: Ok(Some(v)),
                                scope: e.scope.assign(ident@, v.0),
                                session: e.session,
                            },
                        }
                    },
                }
            },
            Expr::Index(target, chain) => {
                let e = eval(host, *target, s, p, ses, d);
                match e.result {
                    Err(_) => e,
                    Ok(None) => Evaluated {
                        result: Err(
                            runtime_error(ErrorKind::UnknownIndex, unknown_index_message(), span),
                        ),
                        ..e
                    },
                    Ok(Some(v)) => {
                        let l = eval_chain(
                            host,
                            chain@,
                            chain@.len(),
                            e.scope,
                            v.0,
                            span,
                            p,
                            e.session,
                            d,
                        );
                        Evaluated {
                            result: match l.result {
                                Ok(v) => Ok(Some(v)),
                                Err(error) => Err(error),
                            },
                            scope: e.scope,
                            session: l.session,
                        }
                    },
                }
            },
            Expr::FunctionCall(ident, args) => {
                match variable(s, ident@) {
                    ValueView::Function(f) => {
                        let a = eval_args(host, args@, args@.len(), s, p, ses, d);
                        match a.result {
                            Err(error) => Evaluated {
                                result: Err(error),
                                scope: a.scope,
                                session: a.session,
                            },
                            Ok(values) => if f.wants_self() && a.scope.for_var is None {
                                Evaluated {
                                    result: Err(
                                        runtime_error(
                                            ErrorKind::CannotCallMethodStatically,
                                            static_call_message(),
                                            span,
                                        ),
                                    ),
                                    scope: a.scope,
                                    session: a.session,
                                }
                            } else {
                                let all = if f.wants_self() {
                                    seq![(a.scope.for_var->Some_0, SpanView::anonymous())] + values
                                } else {
                                    values
                                };
                                let c = call(host, f, all, a.scope, a.session, d);
                                Evaluated { result: c.result, scope: a.scope, session: c.session }
                            },
                        }
                    },
                    _ => Evaluated {
                        result: Err(
                            runtime_error(
                                ErrorKind::NoSuchFunction,
                                no_function_message(ident@),
                                span,
                            ),
                        ),
                        scope: s,
                        session: ses,
                    },
                }
            },
            Expr::FunctionDeclaration { args, return_type, body } => Evaluated {
                result: match resolve_outline(s, args@, return_type) {
                    Ok(outline) => Ok(
                        Some((ValueView::Function(FunctionView::Basic { outline, body }), span)),
                    ),
                    Err(name) => Err(
                        runtime_error(ErrorKind::UnknownType, unknown_type_message(name), span),
                    ),
                },
                scope: s,
                session: ses,
            },
            Expr::MondaicOp { verb, expr } => {
                let e = eval(host, *expr, s, p, ses, d);
                match e.result {
                    Err(_) => e,
                    Ok(None) => Evaluated {
                        result: Err(
                            runtime_error(ErrorKind::MissingValue, missing_value_message(), span),
                        ),
                        ..e
                    },
                    Ok(Some(v)) => operate(
                        host,
                        verb.trait_name_spec(),
                        verb.method_name_spec(),
                        seq![v],
                        span,
                        e.scope,
                        e.session,
                        d,
                    ),
                }
            },
            Expr::DyadicOp { verb, lhs, rhs } => {
                let l = eval(host, *lhs, s, p, ses, d);
                match l.result {
                    Err(_) => l,
                    Ok(None) => Evaluated {
                        result: Err(
                            runtime_error(ErrorKind::MissingValue, missing_value_message(), span),
                        ),
                        ..l
                    },
                    Ok(Some(left)) => {
                        let r = eval(host, *rhs, l.scope, p, l.session, d);
                        match r.result {
                            Err(_) => r,
                            Ok(None) => Evaluated {
                                result: Err(
                                    runtime_error(
                                        ErrorKind::MissingValue,
                                        missing_value_message(),
                                        span,
                                    ),
                                ),
                                ..r
                            },
                            Ok(Some(right)) => if !r.scope.matches(left.0.type_of(), right.0) {
                                Evaluated {
                                    result: Err(
                                        runtime_error(
                                            ErrorKind::DyadicTypeMismatch,
                                            dyadic_mismatch_message(),
                                            span,
                                        ),
                                    ),
                                    ..r
                                }
                            } else {
                                operate(
                                    host,
                                    verb.trait_name_spec(),
                                    verb.method_name_spec(),
                                    seq![left, right],
                                    span,
                                    r.scope,
                                    r.session,
                                    d,
                                )
                            },
                        }
                    },
                }
            },
            Expr::Return(expr) => {
                let e = eval(host, *expr, s, p, ses, d);
                match e.result {
                    Err(_) => e,
                    Ok(found) => {
                        let v = match found {
                            Some(v) => v,
                            None => undefined(),
                        };
                        Evaluated {
                            result: Ok(Some((ValueView::Return(Box::new(v.0)), v.1))),
                            ..e
                        }
                    },
                }
            },
            Expr::Export(expr) => match p {
                None => Evaluated {
                    result: Err(anonymous_error(ErrorKind::NoModule, no_module_message())),
                    scope: s,
                    session: ses,
                },
                Some(key) => {
                    let sink = s.export is None;
                    let inner = if sink {
                        ScopeView { export: Some(Box::new(ses.module(key).child())), ..s }
                    } else {
                        s
                    };
                    let e = eval(host, *expr, inner, p, ses, d);
                    Evaluated {
                        result: match e.result {
                            Err(error) => Err(error),
                            Ok(Some(v)) => Ok(Some(v)),
                            Ok(None) => Ok(Some(undefined())),
                        },
                        scope: if sink {
                            ScopeView { export: None, ..e.scope }
                        } else {
                            e.scope
                        },
                        session: match e.scope.export {
                            Some(exported) => if sink {
                                e.session.with_module(key, *exported)
                            } else {
                                e.session
                            },
                            None => e.session,
                        },
                    }
                },
            },
            Expr::Import(source, names) => Evaluated {
                result: Ok(None),
                scope: if names@.len() == 0 {
                    s.absorb(source.view())
                } else {
                    absorb_names(s, source.view(), names@, names@.len())
                },
                session: ses,
            },
        }
    }
}

/// What a declaration of `ident` with the value `v` fails with, if it fails:
/// where a type is named, it must stand for a type that accepts `v`.
pub open spec fn declaration_error(
    s: ScopeView,
    ident: Seq<char>,
    typed: Option<String>,
    v: ValueView,
    span: SpanView,
) -> Option<ErrorView> {
    match typed {
        None => None,
        Some(t) => match s.resolve_type(t@) {
            None => Some(runtime_error(ErrorKind::UnknownType, unknown_type_message(t@), span)),
            Some(ty) => if s.matches(ty, v) {
                None
            } else {
                Some(
                    runtime_error(
                        ErrorKind::DeclaredTypeMismatch,
                        declared_mismatch_message(ident, t@),
                        span,
                    ),
                )
            },
        },
    }
}

/// The meaning of an operator: the method `method` of the first
/// implementation of the trait `name` for the first operand, called with the
/// operands.
#[verifier::opaque]
pub open spec fn operate<H: Host>(
    host: &H,
    name: Seq<char>,
    method: Seq<char>,
    operands: Seq<(ValueView, SpanView)>,
    span: SpanView,
    s: ScopeView,
    ses: SessionView,
    depth: nat,
) -> Evaluated
    decreases depth, 7nat, 0nat,
{
    match method_for(s, operands[0].0, name, method) {
        None => Evaluated {
            result: Err(
                runtime_error(
                    ErrorKind::NoSuchOperatorImplementation,
                    no_operator_message(name),
                    span,
                ),
            ),
            scope: s,
            session: ses,
        },
        Some(f) => {
            let c = call(host, f, operands, s, ses, depth);
            Evaluated { result: c.result, scope: s, session: c.session }
        },
    }
}

/// The meaning of the first `n` of `nodes` one after the other, in the scope
/// that each leaves to the next: the last value that one of them gave. After
/// an error, or a value marked as returned, nothing more is evaluated.
#[verifier::opaque]
pub open spec fn eval_block<H: Host>(
    host: &H,
    nodes: Seq<ContextualExpr>,
    n: nat,
    s: ScopeView,
    p: Option<Seq<char>>,
    ses: SessionView,
    depth: nat,
) -> Evaluated
    decreases depth, 1nat, n,
{
    if n == 0 || n > nodes.len() {
        Evaluated { result: Ok(None), scope: s, session: ses }
    } else {
        let before = eval_block(host, nodes, (n - 1) as nat, s, p, ses, depth);
        if stops(before.result) {
            before
        } else {
            let e = eval(host, nodes[n - 1], before.scope, p, before.session, depth);
            match e.result {
                Ok(None) => Evaluated { result: before.result, ..e },
                _ => e,
            }
        }
    }
}

/// Whether nothing more of a block is evaluated after this result.
pub open spec fn stops(result: Outcome) -> bool {
    match result {
        Err(_) => true,
        Ok(Some((ValueView::Return(_), _))) => true,
        _ => false,
    }
}

/// The values of the first `n` of `nodes`, evaluated one after the other.
/// Each must have a value.
#[verifier::opaque]
pub open spec fn eval_args<H: Host>(
    host: &H,
    nodes: Seq<ContextualExpr>,
    n: nat,
    s: ScopeView,
    p: Option<Seq<char>>,
    ses: SessionView,
    depth: nat,
) -> Arguments
    decreases depth, 1nat, n,
{
    if n == 0 || n > nodes.len() {
        Arguments { result: Ok(Seq::empty()), scope: s, session: ses }
    } else {
        let before = eval_args(host, nodes, (n - 1) as nat, s, p, ses, depth);
        match before.result {
            Err(_) => before,
            Ok(values) => {
                let e = eval(host, nodes[n - 1], before.scope, p, before.session, depth);
                Arguments {
                    result: match e.result {
                        Err(error) => Err(error),
                        Ok(None) => Err(
                            runtime_error(
                                ErrorKind::MissingValue,
                                missing_value_message(),
                                nodes[n - 1].1.view(),
                            ),
                        ),
                        Ok(Some(v)) => Ok(values.push(v)),
                    },
                    scope: e.scope,
                    session: e.session,
                }
            },
        }
    }
}

/// The first `n` steps of an index chain that starts at the value `first`:
/// each step is evaluated in the scope made for the value before it, from
/// the scope `outer`. A step without a value is an error at `span`.
#[verifier::opaque]
pub open spec fn eval_chain<H: Host>(
    host: &H,
    nodes: Seq<ContextualExpr>,
    n: nat,
    outer: ScopeView,
    first: ValueView,
    span: SpanView,
    p: Option<Seq<char>>,
    ses: SessionView,
    depth: nat,
) -> Link
    decreases depth, 1nat, n,
{
    if n == 0 || n > nodes.len() {
        Link { result: Ok(undefined()), holder: first, session: ses }
    } else {
        let before = eval_chain(host, nodes, (n - 1) as nat, outer, first, span, p, ses, depth);
        match before.result {
            Err(_) => before,
            Ok(_) => {
                let e = eval(
                    host,
                    nodes[n - 1],
                    outer.child_for_var(before.holder),
                    p,
                    before.session,
                    depth,
                );
                match e.result {
                    Err(error) => Link {
                        result: Err(error),
                        holder: before.holder,
                        session: e.session,
                    },
                    Ok(None) => Link {
                        result: Err(
                            runtime_error(ErrorKind::UnknownIndex, unknown_index_message(), span),
                        ),
                        holder: before.holder,
                        session: e.session,
                    },
                    Ok(Some(v)) => Link { result: Ok(v), holder: v.0, session: e.session },
                }
            },
        }
    }
}

/// The meaning of a program or of a function's body: its expressions one
/// after the other, and the last value that one of them gave, or the value
/// of no value where none gave one.
#[verifier::opaque]
pub open spec fn process_spec<H: Host>(
    host: &H,
    tree: Seq<ContextualExpr>,
    s: ScopeView,
    p: Option<Seq<char>>,
    ses: SessionView,
    depth: nat,
) -> Evaluated
    decreases depth, 2nat, 0nat,
{
    let b = eval_block(host, tree, tree.len(), s, p, ses, depth);
    Evaluated {
        result: match b.result {
            Ok(None) => Ok(Some(undefined())),
            _ => b.result,
        },
        ..b
    }
}

/// The meaning of a call of `f` with `args` from the scope `caller`: the
/// arguments are bound to the parameters in a scope of the call's own, and
/// the body is evaluated, or the built-in run, in it. A value marked as
/// returned is the call's value, without the mark.
#[verifier::opaque]
pub open spec fn call<H: Host>(
    host: &H,
    f: FunctionView,
    args: Seq<(ValueView, SpanView)>,
    caller: ScopeView,
    ses: SessionView,
    depth: nat,
) -> Called
    decreases depth, 6nat, 0nat,
{
    match declare_spec(f, args, caller) {
        Err(error) => Called { result: Err(error), session: ses },
        Ok(scope) => match f {
            FunctionView::Basic { body, .. } => {
                let b = process_spec(host, body@, scope, None, ses, depth);
                Called { result: returned(b.result), session: b.session }
            },
            FunctionView::Builtin { handler, .. } => native(host, handler, scope, ses, depth),
        },
    }
}

/// The text that a value is printed as: what its `ToPretty` implementation
/// makes of it; without one, what its `ToString` implementation makes of it;
/// without either, its text marked as a fallback.
#[verifier::opaque]
pub open spec fn render<H: Host>(
    host: &H,
    v: ValueView,
    s: ScopeView,
    ses: SessionView,
    depth: nat,
) -> Rendered
    decreases depth, 2nat, 0nat,
{
    match method_for(s, v, "ToPretty"@, "to_pretty"@) {
        Some(f) => converted(host, f, v, s, ses, depth),
        None => match method_for(s, v, "ToString"@, "to_string"@) {
            Some(f) => converted(host, f, v, s, ses, depth),
            None => Rendered {
                result: Ok("[Debug: "@ + display(host, v) + "]"@),
                session: ses,
            },
        },
    }
}

/// The text that the conversion `f` makes of `v`: its result where that is
/// text, the text of `v` where it is anything else.
#[verifier::opaque]
pub open spec fn converted<H: Host>(
    host: &H,
    f: FunctionView,
    v: ValueView,
    s: ScopeView,
    ses: SessionView,
    depth: nat,
) -> Rendered
    decreases depth, 1nat, 0nat,
{
    if depth == 0 {
        Rendered { result: Err(too_deep(SpanView::anonymous())), session: ses }
    } else {
        let c = call(host, f, seq![(v, SpanView::anonymous())], s, ses, (depth - 1) as nat);
        Rendered {
            result: match c.result {
                Err(error) => Err(error),
                Ok(Some((ValueView::String(text), _))) => Ok(text),
                Ok(_) => Ok(display(host, v)),
            },
            session: c.session,
        }
    }
}

/// The coloured text of a field's value: what its `ToPretty` implementation
/// makes of it, its plain text without one.
#[verifier::opaque]
pub open spec fn pretty_field<H: Host>(
    host: &H,
    v: ValueView,
    s: ScopeView,
    ses: SessionView,
    depth: nat,
) -> Rendered
    decreases depth, 2nat, 0nat,
{
    match method_for(s, v, "ToPretty"@, "to_pretty"@) {
        Some(f) => converted(host, f, v, s, ses, depth),
        None => Rendered { result: Ok(display(host, v)), session: ses },
    }
}

/// The coloured text of the first `n` of `fields`: each as its name, a colon
/// and the coloured text of its value, with commas between.
#[verifier::opaque]
pub open spec fn pretty_fields<H: Host>(
    host: &H,
    fields: Seq<(Seq<char>, ValueView)>,
    n: nat,
    s: ScopeView,
    ses: SessionView,
    depth: nat,
) -> Rendered
    decreases depth, 3nat, n,
{
    if n == 0 || n > fields.len() {
        Rendered { result: Ok(Seq::empty()), session: ses }
    } else {
        let before = pretty_fields(host, fields, (n - 1) as nat, s, ses, depth);
        match before.result {
            Err(_) => before,
            Ok(text) => {
                let r = pretty_field(host, fields[n - 1].1, s, before.session, depth);
                Rendered {
                    result: match r.result {
                        Err(error) => Err(error),
                        Ok(value) => Ok(
                            text + (if n > 1 {
                                ", "@
                            } else {
                                Seq::empty()
                            }) + fields[n - 1].0 + ": "@ + value,
                        ),
                    },
                    session: r.session,
                }
            },
        }
    }
}

/// The coloured text of a value: numbers yellow, truth values green, text
/// cyan between quotes, functions magenta, the value of no value dimmed, a
/// struct instance by its name and its fields between blue braces.
#[verifier::opaque]
pub open spec fn pretty<H: Host>(
    host: &H,
    v: ValueView,
    s: ScopeView,
    ses: SessionView,
    depth: nat,
) -> Rendered
    decreases depth, 4nat, 0nat,
{
    match v {
        ValueView::Number(bits) => Rendered { result: Ok(yellow_text(host.text(bits))), session: ses },
        ValueView::Boolean(b) => Rendered { result: Ok(green_text(boolean_text(b))), session: ses },
        ValueView::String(text) => Rendered {
            result: Ok(cyan_text("\""@ + text + "\""@)),
            session: ses,
        },
        ValueView::StructInstance { name, fields, .. } => {
            let body = pretty_fields(host, fields, fields.len(), s, ses, depth);
            Rendered {
                result: match body.result {
                    Err(error) => Err(error),
                    Ok(text) => Ok(
                        name + " "@ + blue_text("{"@) + " "@ + text + " "@ + blue_text("}"@),
                    ),
                },
                session: body.session,
            }
        },
        ValueView::Function(f) => Rendered {
            result: Ok(magenta_text(function_text(f))),
            session: ses,
        },
        ValueView::Undefined => Rendered { result: Ok(dimmed_text("null"@)), session: ses },
        _ => Rendered { result: Ok(display(host, v)), session: ses },
    }
}

/// What a built-in does in the scope `s` of its call, in which its
/// parameters are bound.
#[verifier::opaque]
pub open spec fn native<H: Host>(
    host: &H,
    handler: Native,
    s: ScopeView,
    ses: SessionView,
    depth: nat,
) -> Called
    decreases depth, 5nat, 0nat,
{
    match handler {
        Native::Print => {
            let r = render(host, variable(s, "value"@), s, ses, depth);
            match r.result {
                Err(error) => Called { result: Err(error), session: r.session },
                Ok(text) => Called { result: Ok(None), session: r.session.print(text) },
            }
        },
        Native::ToString => Called {
            result: Ok(
                Some(
                    (
                        ValueView::String(display(host, variable(s, "self"@))),
                        SpanView::anonymous(),
                    ),
                ),
            ),
            session: ses,
        },
        Native::ToPretty => {
            let r = pretty(host, variable(s, "self"@), s, ses, depth);
            Called {
                result: match r.result {
                    Err(error) => Err(error),
                    Ok(text) => Ok(Some((ValueView::String(text), SpanView::anonymous()))),
                },
                session: r.session,
            }
        },
        Native::AddString => Called {
            result: Ok(
                Some(
                    (
                        match (variable(s, "left"@), variable(s, "right"@)) {
                            (ValueView::String(a), ValueView::String(b)) => ValueView::String(a + b),
                            _ => ValueView::Undefined,
                        },
                        SpanView::anonymous(),
                    ),
                ),
            ),
            session: ses,
        },
        Native::AddNumber => Called {
            result: Ok(
                Some(
                    (
                        match (variable(s, "left"@), variable(s, "right"@)) {
                            (ValueView::Number(a), ValueView::Number(b)) => ValueView::Number(
                                host.sum(a, b),
                            ),
                            _ => ValueView::Undefined,
                        },
                        SpanView::anonymous(),
                    ),
                ),
            ),
            session: ses,
        },
        Native::IndexString => Called {
            result: Ok(
                Some(
                    (
                        match (variable(s, "self"@), variable(s, "index"@)) {
                            (ValueView::String(text), ValueView::Number(bits)) => indexed(text, bits),
                            _ => ValueView::Undefined,
                        },
                        SpanView::anonymous(),
                    ),
                ),
            ),
            session: ses,
        },
        Native::CurrentUnix => Called {
            result: Ok(Some((ValueView::Number(ses.clock), SpanView::anonymous()))),
            session: ses,
        },
    }
}

} // verus!
