//! The evaluator: expressions are evaluated against a scope, within a run
//! that carries what modules have exported and what was printed.
//!
//! Evaluation nests no deeper than the run allows: expressions within
//! expressions and calls within calls each take one level, and an evaluation
//! that would go deeper fails. What every function here computes is stated
//! in [`semantics`].

use vstd::prelude::*;
use vstd::string::*;
use std::sync::Arc;
use crate::errors::{text_of, Error, ErrorKind, ErrorView};
use crate::runtime::_builtins::{default_impl, seeded};
use crate::runtime::native::{find_method, label_of, run_native, value_of};
use crate::runtime::scope::{Scope, ScopeView};
use crate::runtime::semantics::{
    absorb_names, bind_args, call, declare_spec, eval, eval_args, eval_block, eval_chain, native,
    operate, process_spec, resolve_params, stops, Arguments, Called, Evaluated, Link, Outcome,
};
use crate::runtime::session::{Session, SessionView};
use crate::runtime::types::function::{
    BasicFunction, BuiltinFunction, Function, FunctionOutline, FunctionView,
};
use crate::runtime::types::{ContextualValue, TypeView, Value, ValueType, ValueView};
use crate::sitter::expr::{ContextualExpr, Expr};
use crate::sitter::{Span, SpanView};
use crate::text::{join2, join3, share};

pub mod _builtins;
pub mod laws;
pub mod native;
pub mod paint;
pub mod scope;
pub mod semantics;
pub mod session;
pub mod traits;
pub mod types;

verus! {

/// The arithmetic on numbers, which the embedding program supplies. A number
/// is an IEEE-754 binary64 value, given by its bit pattern.
///
/// What an implementation returns must depend on the implementation and the
/// arguments alone: the contracts say no more of a result than that it is
/// what `sum`, `text` and `parsed` name for this host. Where a result is not
/// a number, an implementation must give the one quiet not-a-number with a
/// positive sign and no payload, since the sign and payload of such a result
/// are otherwise not fixed.
pub trait Host: Sized {
    /// The bit pattern of the sum of two numbers, as this host adds.
    open spec fn sum(&self, left: u64, right: u64) -> u64 {
        arbitrary::<spec_fn(Self, u64, u64) -> u64>()(*self, left, right)
    }

    /// A number written out, as this host writes.
    open spec fn text(&self, number: u64) -> Seq<char> {
        arbitrary::<spec_fn(Self, u64) -> Seq<char>>()(*self, number)
    }

    /// The bit pattern of the number that a text writes, where it writes
    /// one, as this host reads.
    open spec fn parsed(&self, text: Seq<char>) -> Option<u64> {
        arbitrary::<spec_fn(Self, Seq<char>) -> Option<u64>>()(*self, text)
    }

    /// The bit pattern of the sum of two numbers.
    fn add_numbers(&self, left: u64, right: u64) -> (r: u64)
        ensures
            r == self.sum(left, right),
    ;

    /// A number written out.
    fn number_text(&self, number: u64) -> (r: String)
        ensures
            r@ == self.text(number),
    ;

    /// The bit pattern of the number that a text writes, where it writes one.
    fn parse_number(&self, text: &str) -> (r: Option<u64>)
        ensures
            r == self.parsed(text@),
    ;
}

/// The result of an evaluation as a mathematical value.
pub open spec fn outcome_view(r: Result<Option<ContextualValue>, Error>) -> Outcome {
    match r {
        Ok(Some(v)) => Ok(Some(v.view())),
        Ok(None) => Ok(None),
        Err(e) => Err(e.view()),
    }
}

/// Values with their places as mathematical values.
pub open spec fn values_view(v: Seq<ContextualValue>) -> Seq<(ValueView, SpanView)> {
    Seq::new(v.len(), |i: int| v[i].view())
}

/// What an evaluation gave and left.
pub open spec fn evaluated(
    r: Result<Option<ContextualValue>, Error>,
    s: &Scope,
    ses: &Session,
) -> Evaluated {
    Evaluated { result: outcome_view(r), scope: s.view(), session: ses.view() }
}

/// What a call gave and left.
pub open spec fn called(r: Result<Option<ContextualValue>, Error>, ses: &Session) -> Called {
    Called { result: outcome_view(r), session: ses.view() }
}

/// What the evaluation of arguments gave and left.
pub open spec fn arguments(r: Result<Vec<ContextualValue>, Error>, s: &Scope, ses: &Session) -> Arguments {
    Arguments {
        result: match r {
            Ok(values) => Ok(values_view(values@)),
            Err(e) => Err(e.view()),
        },
        scope: s.view(),
        session: ses.view(),
    }
}

/// The scope in which a call of `f` with the arguments `i` from the scope `s`
/// runs: made for `f`, with each argument bound to its parameter. There must
/// be as many arguments as parameters, each of its parameter's type.
pub fn declare(f: &Arc<Function>, s: &Scope, i: Vec<ContextualValue>) -> (r: Result<Scope, Error>)
    ensures
        match r {
            Ok(scope) => declare_spec(f.view(), values_view(i@), s.view()) == Ok::<
                ScopeView,
                ErrorView,
            >(scope.view()),
            Err(e) => declare_spec(f.view(), values_view(i@), s.view()) == Err::<
                ScopeView,
                ErrorView,
            >(e.view()),
        },
{
    let outline = f.outline();
    if i.len() != outline.inputs.len() {
        return Err(
            Error::anonymous(ErrorKind::ArgumentTypeMismatch, "Wrong number of arguments".to_owned()),
        );
    }
    let mut scope = s.child_for_var(Value::Function(share(f)));
    let ghost args = values_view(i@);
    let ghost inputs = outline.view().inputs;
    let mut n: usize = 0;
    while n < i.len()
        invariant
            n <= i.len(),
            i.len() == outline.inputs.len(),
            args == values_view(i@),
            inputs == outline.view().inputs,
            inputs == f.view().outline().inputs,
            inputs.len() == outline.inputs.len(),
            bind_args(f.view(), args, s.view(), n as nat) == Ok::<ScopeView, ErrorView>(
                scope.view(),
            ),
        decreases i.len() - n,
    {
        assert(inputs[n as int] == (outline.inputs@[n as int].0@, outline.inputs@[n as int].1.view()));
        assert(args[n as int] == i@[n as int].view());
        if !outline.inputs[n].1.matches(&i[n].0, &scope) {
            proof {
                lemma_bind_fails(f.view(), args, s.view(), (n + 1) as nat, args.len());
            }
            let mut message = join3(
                "Mismatching types for fn arg ",
                outline.inputs[n].0.as_str(),
                ": ",
            );
            let actual = label_of(&i[n].0.type_of());
            message.append(actual.as_str());
            message.append(" != ");
            let expected = match &outline.inputs[n].1 {
                ValueType::This => {
                    let held = match scope.container() {
                        Some(c) => label_of(&c.type_of()),
                        None => label_of(&ValueType::Undefined),
                    };
                    join3("Self[ ", held.as_str(), " ]")
                },
                other => label_of(other),
            };
            message.append(expected.as_str());
            return Err(Error::runtime(ErrorKind::ArgumentTypeMismatch, message, &i[n].1));
        }
        scope.declare(outline.inputs[n].0.as_str(), i[n].0.clone());
        n = n + 1;
    }
    Ok(scope)
}

/// Once an argument is of the wrong type, more arguments change nothing.
pub proof fn lemma_bind_fails(
    f: FunctionView,
    args: Seq<(ValueView, SpanView)>,
    caller: ScopeView,
    n: nat,
    m: nat,
)
    requires
        n <= m <= args.len(),
        m <= f.outline().inputs.len(),
        bind_args(f, args, caller, n) is Err,
    ensures
        bind_args(f, args, caller, m) == bind_args(f, args, caller, n),
    decreases m,
{
    if n < m {
        lemma_bind_fails(f, args, caller, n, (m - 1) as nat);
    }
}

/// Calls `f` with the arguments `inputs` from the scope `scope`.
pub(crate) fn call_function<H: Host>(
    host: &H,
    f: &Arc<Function>,
    scope: &Scope,
    inputs: Vec<ContextualValue>,
    session: &mut Session,
    depth: usize,
) -> (r: Result<Option<ContextualValue>, Error>)
    ensures
        called(r, final(session)) == call(
            host,
            f.view(),
            values_view(inputs@),
            scope.view(),
            old(session).view(),
            depth as nat,
        ),
        final(session).limit() == old(session).limit(),
    decreases depth, 9nat, 0nat,
{
    proof {
        reveal(call);
        reveal(process_spec);
        reveal(native);
    }
    match declare(f, scope, inputs) {
        Err(e) => Err(e),
        Ok(child) => match &**f {
            Function::Basic(b) => {
                let mut child = child;
                let r = process_at(host, &b.body, &mut child, &None, session, depth);
                match r {
                    Ok(Some(ContextualValue(Value::Return(inner), span))) => Ok(
                        Some(ContextualValue(*inner, span)),
                    ),
                    other => other,
                }
            },
            Function::Builtin(b) => run_native(host, b.handler, &child, session, depth),
        },
    }
}

/// Evaluates a program or a function's body.
pub(crate) fn process_at<H: Host>(
    host: &H,
    tree: &Vec<ContextualExpr>,
    s: &mut Scope,
    p: &Option<String>,
    session: &mut Session,
    depth: usize,
) -> (r: Result<Option<ContextualValue>, Error>)
    ensures
        evaluated(r, final(s), final(session)) == process_spec(
            host,
            tree@,
            old(s).view(),
            text_of(*p),
            old(session).view(),
            depth as nat,
        ),
        final(session).limit() == old(session).limit(),
    decreases depth, 3nat, 0nat,
{
    proof {
        reveal(process_spec);
        reveal(eval_block);
    }
    match step_block(host, tree, s, p, session, depth) {
        Ok(None) => Ok(Some(Value::Undefined.anonymous())),
        other => other,
    }
}

/// Evaluates expressions one after the other, up to an error or a value
/// marked as returned.
pub(crate) fn step_block<H: Host>(
    host: &H,
    nodes: &Vec<ContextualExpr>,
    s: &mut Scope,
    p: &Option<String>,
    session: &mut Session,
    depth: usize,
) -> (r: Result<Option<ContextualValue>, Error>)
    ensures
        evaluated(r, final(s), final(session)) == eval_block(
            host,
            nodes@,
            nodes@.len(),
            old(s).view(),
            text_of(*p),
            old(session).view(),
            depth as nat,
        ),
        final(session).limit() == old(session).limit(),
    decreases depth, 2nat, 0nat,
{
    proof {
        reveal(eval_block);
        reveal(eval);
    }
    let ghost s0 = s.view();
    let ghost ses0 = session.view();
    let mut result: Option<ContextualValue> = None;
    let mut i: usize = 0;
    while i < nodes.len()
        invariant
            i <= nodes.len(),
            session.limit() == old(session).limit(),
            s0 == old(s).view(),
            ses0 == old(session).view(),
            evaluated(Ok(result), s, session) == eval_block(
                host,
                nodes@,
                i as nat,
                s0,
                text_of(*p),
                ses0,
                depth as nat,
            ),
            !stops(outcome_view(Ok(result))),
        decreases nodes.len() - i,
    {
        proof {
            reveal(eval_block);
            reveal(eval);
        }
        match step_at(host, &nodes[i], s, p, session, depth) {
            Err(e) => {
                proof {
                    lemma_block_stops(
                        host,
                        nodes@,
                        (i + 1) as nat,
                        nodes@.len(),
                        s0,
                        text_of(*p),
                        ses0,
                        depth as nat,
                    );
                }
                return Err(e);
            },
            Ok(None) => {},
            Ok(Some(v)) => {
                let leaving = match &v.0 {
                    Value::Return(_) => true,
                    _ => false,
                };
                result = Some(v);
                if leaving {
                    proof {
                        lemma_block_stops(
                            host,
                            nodes@,
                            (i + 1) as nat,
                            nodes@.len(),
                            s0,
                            text_of(*p),
                            ses0,
                            depth as nat,
                        );
                    }
                    return Ok(result);
                }
            },
        }
        i = i + 1;
    }
    Ok(result)
}

/// Once a block has stopped, more of it changes nothing.
pub proof fn lemma_block_stops<H: Host>(
    host: &H,
    nodes: Seq<ContextualExpr>,
    n: nat,
    m: nat,
    s: ScopeView,
    p: Option<Seq<char>>,
    ses: SessionView,
    depth: nat,
)
    requires
        n <= m <= nodes.len(),
        stops(eval_block(host, nodes, n, s, p, ses, depth).result),
    ensures
        eval_block(host, nodes, m, s, p, ses, depth) == eval_block(host, nodes, n, s, p, ses, depth),
    decreases m,
{
    reveal(eval_block);
    if n < m {
        lemma_block_stops(host, nodes, n, (m - 1) as nat, s, p, ses, depth);
    }
}

/// Once the evaluation of arguments has failed, more arguments change
/// nothing.
pub proof fn lemma_args_fail<H: Host>(
    host: &H,
    nodes: Seq<ContextualExpr>,
    n: nat,
    m: nat,
    s: ScopeView,
    p: Option<Seq<char>>,
    ses: SessionView,
    depth: nat,
)
    requires
        n <= m <= nodes.len(),
        eval_args(host, nodes, n, s, p, ses, depth).result is Err,
    ensures
        eval_args(host, nodes, m, s, p, ses, depth) == eval_args(host, nodes, n, s, p, ses, depth),
    decreases m,
{
    reveal(eval_args);
    if n < m {
        lemma_args_fail(host, nodes, n, (m - 1) as nat, s, p, ses, depth);
    }
}

/// Once an index chain has failed, more steps change nothing.
pub proof fn lemma_chain_fails<H: Host>(
    host: &H,
    nodes: Seq<ContextualExpr>,
    n: nat,
    m: nat,
    outer: ScopeView,
    first: ValueView,
    span: SpanView,
    p: Option<Seq<char>>,
    ses: SessionView,
    depth: nat,
)
    requires
        n <= m <= nodes.len(),
        eval_chain(host, nodes, n, outer, first, span, p, ses, depth).result is Err,
    ensures
        eval_chain(host, nodes, m, outer, first, span, p, ses, depth) == eval_chain(
            host,
            nodes,
            n,
            outer,
            first,
            span,
            p,
            ses,
            depth,
        ),
    decreases m,
{
    reveal(eval_chain);
    if n < m {
        lemma_chain_fails(host, nodes, n, (m - 1) as nat, outer, first, span, p, ses, depth);
    }
}

/// Evaluates the arguments of a call, in order.
pub(crate) fn step_args<H: Host>(
    host: &H,
    nodes: &Vec<ContextualExpr>,
    s: &mut Scope,
    p: &Option<String>,
    session: &mut Session,
    depth: usize,
) -> (r: Result<Vec<ContextualValue>, Error>)
    ensures
        arguments(r, final(s), final(session)) == eval_args(
            host,
            nodes@,
            nodes@.len(),
            old(s).view(),
            text_of(*p),
            old(session).view(),
            depth as nat,
        ),
        final(session).limit() == old(session).limit(),
    decreases depth, 2nat, 0nat,
{
    proof {
        reveal(eval_args);
        reveal(eval);
    }
    let ghost s0 = s.view();
    let ghost ses0 = session.view();
    let mut values: Vec<ContextualValue> = Vec::new();
    let mut i: usize = 0;
    assert(values_view(values@) =~= Seq::empty());
    while i < nodes.len()
        invariant
            i <= nodes.len(),
            session.limit() == old(session).limit(),
            s0 == old(s).view(),
            ses0 == old(session).view(),
            arguments(Ok(values), s, session) == eval_args(
                host,
                nodes@,
                i as nat,
                s0,
                text_of(*p),
                ses0,
                depth as nat,
            ),
        decreases nodes.len() - i,
    {
        let ghost before = values_view(values@);
        proof {
            reveal(eval_args);
            reveal(eval);
        }
        match step_at(host, &nodes[i], s, p, session, depth) {
            Err(e) => {
                proof {
                    lemma_args_fail(
                        host,
                        nodes@,
                        (i + 1) as nat,
                        nodes@.len(),
                        s0,
                        text_of(*p),
                        ses0,
                        depth as nat,
                    );
                }
                return Err(e);
            },
            Ok(None) => {
                proof {
                    lemma_args_fail(
                        host,
                        nodes@,
                        (i + 1) as nat,
                        nodes@.len(),
                        s0,
                        text_of(*p),
                        ses0,
                        depth as nat,
                    );
                }
                return Err(
                    Error::runtime(
                        ErrorKind::MissingValue,
                        "Expression has no value".to_owned(),
                        &nodes[i].1,
                    ),
                );
            },
            Ok(Some(v)) => {
                values.push(v);
                assert(values_view(values@) =~= before.push(v.view()));
            },
        }
        i = i + 1;
    }
    Ok(values)
}

/// Evaluates the steps of an index chain that starts at the value `first`.
pub(crate) fn step_chain<H: Host>(
    host: &H,
    nodes: &Vec<ContextualExpr>,
    outer: &Scope,
    first: Value,
    span: &Span,
    p: &Option<String>,
    session: &mut Session,
    depth: usize,
) -> (r: Result<ContextualValue, Error>)
    ensures
        eval_chain(
            host,
            nodes@,
            nodes@.len(),
            outer.view(),
            first.view(),
            span.view(),
            text_of(*p),
            old(session).view(),
            depth as nat,
        ).result == (match r {
            Ok(v) => Ok::<(ValueView, SpanView), ErrorView>(v.view()),
            Err(e) => Err::<(ValueView, SpanView), ErrorView>(e.view()),
        }),
        eval_chain(
            host,
            nodes@,
            nodes@.len(),
            outer.view(),
            first.view(),
            span.view(),
            text_of(*p),
            old(session).view(),
            depth as nat,
        ).session == final(session).view(),
        final(session).limit() == old(session).limit(),
    decreases depth, 2nat, 0nat,
{
    proof {
        reveal(eval_chain);
        reveal(eval);
    }
    let ghost ses0 = session.view();
    let ghost start = first.view();
    let mut holder = first;
    let mut right = Value::Undefined.anonymous();
    let mut i: usize = 0;
    while i < nodes.len()
        invariant
            i <= nodes.len(),
            session.limit() == old(session).limit(),
            ses0 == old(session).view(),
            start == first.view(),
            eval_chain(
                host,
                nodes@,
                i as nat,
                outer.view(),
                start,
                span.view(),
                text_of(*p),
                ses0,
                depth as nat,
            ) == (Link {
                result: Ok::<(ValueView, SpanView), ErrorView>(right.view()),
                holder: holder.view(),
                session: session.view(),
            }),
        decreases nodes.len() - i,
    {
        let mut container = outer.child_for_var(holder.clone());
        proof {
            reveal(eval_chain);
            reveal(eval);
        }
        match step_at(host, &nodes[i], &mut container, p, session, depth) {
            Err(e) => {
                proof {
                    lemma_chain_fails(
                        host,
                        nodes@,
                        (i + 1) as nat,
                        nodes@.len(),
                        outer.view(),
                        start,
                        span.view(),
                        text_of(*p),
                        ses0,
                        depth as nat,
                    );
                }
                return Err(e);
            },
            Ok(None) => {
                proof {
                    lemma_chain_fails(
                        host,
                        nodes@,
                        (i + 1) as nat,
                        nodes@.len(),
                        outer.view(),
                        start,
                        span.view(),
                        text_of(*p),
                        ses0,
                        depth as nat,
                    );
                }
                return Err(
                    Error::runtime(ErrorKind::UnknownIndex, "Index doesnt exist".to_owned(), span),
                );
            },
            Ok(Some(v)) => {
                holder = v.0.clone();
                right = v;
            },
        }
        i = i + 1;
    }
    Ok(right)
}

/// Applies an operator: calls the method `method` of the first
/// implementation of the trait `name` for the first operand.
pub(crate) fn apply_operator<H: Host>(
    host: &H,
    name: &str,
    method: &str,
    operands: Vec<ContextualValue>,
    span: &Span,
    s: &Scope,
    session: &mut Session,
    depth: usize,
) -> (r: Result<Option<ContextualValue>, Error>)
    requires
        operands@.len() > 0,
    ensures
        evaluated(r, s, final(session)) == operate(
            host,
            name@,
            method@,
            values_view(operands@),
            span.view(),
            s.view(),
            old(session).view(),
            depth as nat,
        ),
        final(session).limit() == old(session).limit(),
    decreases depth, 10nat, 0nat,
{
    proof {
        reveal(operate);
        reveal(call);
    }
    assert(values_view(operands@)[0] == operands@[0].view());
    match find_method(s, &operands[0].0, name, method) {
        None => Err(
            Error::runtime(
                ErrorKind::NoSuchOperatorImplementation,
                join3("No implementation of ", name, " for this value"),
                span,
            ),
        ),
        Some(f) => call_function(host, &f, s, operands, session, depth),
    }
}

/// Resolves the parameters of a function declaration.
fn resolve_inputs(args: &Vec<(String, String)>, s: &Scope) -> (r: Result<
    Vec<(String, ValueType)>,
    String,
>)
    ensures
        match r {
            Ok(inputs) => resolve_params(s.view(), args@, args@.len()) == Ok::<
                Seq<(Seq<char>, TypeView)>,
                Seq<char>,
            >(
                Seq::new(inputs@.len(), |i: int| (inputs@[i].0@, inputs@[i].1.view())),
            ),
            Err(name) => resolve_params(s.view(), args@, args@.len()) == Err::<
                Seq<(Seq<char>, TypeView)>,
                Seq<char>,
            >(name@),
        },
{
    let mut inputs: Vec<(String, ValueType)> = Vec::new();
    let mut i: usize = 0;
    assert(Seq::new(inputs@.len(), |k: int| (inputs@[k].0@, inputs@[k].1.view())) =~= Seq::empty());
    while i < args.len()
        invariant
            i <= args.len(),
            resolve_params(s.view(), args@, i as nat) == Ok::<
                Seq<(Seq<char>, TypeView)>,
                Seq<char>,
            >(
                Seq::new(inputs@.len(), |k: int| (inputs@[k].0@, inputs@[k].1.view())),
            ),
        decreases args.len() - i,
    {
        let ghost before = Seq::new(inputs@.len(), |k: int| (inputs@[k].0@, inputs@[k].1.view()));
        match ValueType::from_str(args[i].1.as_str(), s) {
            None => {
                proof {
                    lemma_params_fail(s.view(), args@, (i + 1) as nat, args@.len());
                }
                return Err(args[i].1.clone());
            },
            Some(ty) => {
                inputs.push((args[i].0.clone(), ty));
                assert(Seq::new(inputs@.len(), |k: int| (inputs@[k].0@, inputs@[k].1.view()))
                    =~= before.push((args@[i as int].0@, ty.view())));
            },
        }
        i = i + 1;
    }
    Ok(inputs)
}

/// Once a parameter's type is unknown, more parameters change nothing.
pub proof fn lemma_params_fail(s: ScopeView, args: Seq<(String, String)>, n: nat, m: nat)
    requires
        n <= m <= args.len(),
        resolve_params(s, args, n) is Err,
    ensures
        resolve_params(s, args, m) == resolve_params(s, args, n),
    decreases m,
{
    if n < m {
        lemma_params_fail(s, args, n, (m - 1) as nat);
    }
}

/// Evaluates an expression where evaluation may nest `depth` deep.
pub(crate) fn step_at<H: Host>(
    host: &H,
    node: &ContextualExpr,
    s: &mut Scope,
    p: &Option<String>,
    session: &mut Session,
    depth: usize,
) -> (r: Result<Option<ContextualValue>, Error>)
    ensures
        evaluated(r, final(s), final(session)) == eval(
            host,
            *node,
            old(s).view(),
            text_of(*p),
            old(session).view(),
            depth as nat,
        ),
        final(session).limit() == old(session).limit(),
    decreases depth, 1nat, 0nat,
{
    proof {
        reveal(eval);
        reveal(eval_block);
    }
    if depth == 0 {
        return Err(Error::runtime(ErrorKind::DepthExceeded, "Nested too deep".to_owned(), &node.1));
    }
    match &node.0 {
        Expr::Number(bits) => Ok(Some(Value::Number(*bits).context(node.1.clone()))),
        Expr::Boolean(b) => Ok(Some(Value::Boolean(*b).context(node.1.clone()))),
        Expr::String(text) => Ok(Some(Value::String(text.clone()).context(node.1.clone()))),
        Expr::Undefined => Ok(Some(Value::Undefined.context(node.1.clone()))),
        Expr::Ident(name) => match s.get(name.as_str()) {
            Some(v) => Ok(Some((*v).clone().context(node.1.clone()))),
            None => Ok(None),
        },
        Expr::Terms(list) => {
            let mut child = s.child();
            step_block(host, list, &mut child, p, session, depth - 1)
        },
        Expr::Declaration { ident, typed, expr } => step_declaration(
            host,
            node,
            s,
            p,
            session,
            depth,
        ),
        Expr::Assignment { ident, expr } => step_assignment(host, node, s, p, session, depth),
        Expr::Index(target, chain) => step_index(host, node, s, p, session, depth),
        Expr::FunctionCall(ident, args) => step_call(host, node, s, p, session, depth),
        Expr::FunctionDeclaration { args, return_type, body } => {
            match resolve_inputs(args, s) {
                Err(name) => Err(
                    Error::runtime(
                        ErrorKind::UnknownType,
                        join3("Unknown type ", name.as_str(), "."),
                        &node.1,
                    ),
                ),
                Ok(inputs) => {
                    let result_type = match return_type {
                        None => None,
                        Some(t) => match ValueType::from_str(t.as_str(), s) {
                            Some(ty) => Some(ty),
                            None => {
                                return Err(
                                    Error::runtime(
                                        ErrorKind::UnknownType,
                                        join3("Unknown type ", t.as_str(), "."),
                                        &node.1,
                                    ),
                                );
                            },
                        },
                    };
                    let f = BasicFunction {
                        outline: Arc::new(FunctionOutline { inputs, returns: result_type }),
                        body: share(body),
                    };
                    proof {
                        assert(f.outline.view().inputs =~= Seq::new(
                            inputs@.len(),
                            |k: int| (inputs@[k].0@, inputs@[k].1.view()),
                        ));
                    }
                    Ok(Some(Value::Function(f.packaged()).context(node.1.clone())))
                },
            }
        },
        Expr::MondaicOp { verb, expr } => step_mondaic(host, node, s, p, session, depth),
        Expr::DyadicOp { verb, lhs, rhs } => step_dyadic(host, node, s, p, session, depth),
        Expr::Return(expr) => {
            match step_at(host, expr, s, p, session, depth - 1) {
                Err(e) => Err(e),
                Ok(found) => {
                    let v = match found {
                        Some(v) => v,
                        None => Value::Undefined.anonymous(),
                    };
                    Ok(Some(ContextualValue(Value::Return(Box::new(v.0)), v.1)))
                },
            }
        },
        Expr::Export(expr) => step_export(host, node, s, p, session, depth),
        Expr::Import(source, names) => {
            if names.len() == 0 {
                s.absorb(source);
            } else {
                let ghost s0 = s.view();
                let mut i: usize = 0;
                while i < names.len()
                    invariant
                        i <= names.len(),
                        s.view() == absorb_names(s0, source.view(), names@, i as nat),
                    decreases names.len() - i,
                {
                    s.absorb_named(source, names[i].as_str());
                    i = i + 1;
                }
            }
            Ok(None)
        },
    }
}

/// Evaluates a declaration.
fn step_declaration<H: Host>(
    host: &H,
    node: &ContextualExpr,
    s: &mut Scope,
    p: &Option<String>,
    session: &mut Session,
    depth: usize,
) -> (r: Result<Option<ContextualValue>, Error>)
    requires
        depth > 0,
        node.0 is Declaration,
    ensures
        evaluated(r, final(s), final(session)) == eval(
            host,
            *node,
            old(s).view(),
            text_of(*p),
            old(session).view(),
            depth as nat,
        ),
        final(session).limit() == old(session).limit(),
    decreases depth, 0nat, 0nat,
{
    proof {
        reveal(eval);
    }
    match &node.0 {
        Expr::Declaration { ident, typed, expr } => {
            match step_at(host, expr, s, p, session, depth - 1) {
                Err(e) => Err(e),
                Ok(None) => Err(
                    Error::runtime(
                        ErrorKind::MissingValue,
                        "Expression has no value".to_owned(),
                        &node.1,
                    ),
                ),
                Ok(Some(v)) => {
                    match typed {
                        None => {},
                        Some(t) => match ValueType::from_str(t.as_str(), s) {
                            None => {
                                return Err(
                                    Error::runtime(
                                        ErrorKind::UnknownType,
                                        join3("Unknown type ", t.as_str(), "."),
                                        &node.1,
                                    ),
                                );
                            },
                            Some(ty) => {
                                if !ty.matches(&v.0, s) {
                                    let mut message = join3(
                                        "Variable ",
                                        ident.as_str(),
                                        " is not of type ",
                                    );
                                    message.append(t.as_str());
                                    return Err(
                                        Error::runtime(
                                            ErrorKind::DeclaredTypeMismatch,
                                            message,
                                            &node.1,
                                        ),
                                    );
                                }
                            },
                        },
                    }
                    s.declare(ident.as_str(), v.0.clone());
                    Ok(Some(v))
                },
            }
        },
        _ => Ok(None),
    }
}

/// Evaluates an assignment.
fn step_assignment<H: Host>(
    host: &H,
    node: &ContextualExpr,
    s: &mut Scope,
    p: &Option<String>,
    session: &mut Session,
    depth: usize,
) -> (r: Result<Option<ContextualValue>, Error>)
    requires
        depth > 0,
        node.0 is Assignment,
    ensures
        evaluated(r, final(s), final(session)) == eval(
            host,
            *node,
            old(s).view(),
            text_of(*p),
            old(session).view(),
            depth as nat,
        ),
        final(session).limit() == old(session).limit(),
    decreases depth, 0nat, 0nat,
{
    proof {
        reveal(eval);
    }
    match &node.0 {
        Expr::Assignment { ident, expr } => {
            match step_at(host, expr, s, p, session, depth - 1) {
                Err(e) => Err(e),
                Ok(found) => {
                    let v = match found {
                        Some(v) => v,
                        None => Value::Undefined.anonymous(),
                    };
                    match s.assign(ident.as_str(), v.0.clone()) {
                        Err(e) => Err(Error::runtime(e.kind, e.error, &node.1)),
                        Ok(_) => Ok(Some(v)),
                    }
                },
            }
        },
        _ => Ok(None),
    }
}

/// Evaluates an index chain.
fn step_index<H: Host>(
    host: &H,
    node: &ContextualExpr,
    s: &mut Scope,
    p: &Option<String>,
    session: &mut Session,
    depth: usize,
) -> (r: Result<Option<ContextualValue>, Error>)
    requires
        depth > 0,
        node.0 is Index,
    ensures
        evaluated(r, final(s), final(session)) == eval(
            host,
            *node,
            old(s).view(),
            text_of(*p),
            old(session).view(),
            depth as nat,
        ),
        final(session).limit() == old(session).limit(),
    decreases depth, 0nat, 0nat,
{
    proof {
        reveal(eval);
        reveal(eval_chain);
    }
    match &node.0 {
        Expr::Index(target, chain) => {
            match step_at(host, target, s, p, session, depth - 1) {
                Err(e) => Err(e),
                Ok(None) => Err(
                    Error::runtime(ErrorKind::UnknownIndex, "Index doesnt exist".to_owned(), &node.1),
                ),
                Ok(Some(v)) => {
                    match step_chain(host, chain, s, v.0, &node.1, p, session, depth - 1) {
                        Ok(right) => Ok(Some(right)),
                        Err(e) => Err(e),
                    }
                },
            }
        },
        _ => Ok(None),
    }
}

/// Evaluates a call.
fn step_call<H: Host>(
    host: &H,
    node: &ContextualExpr,
    s: &mut Scope,
    p: &Option<String>,
    session: &mut Session,
    depth: usize,
) -> (r: Result<Option<ContextualValue>, Error>)
    requires
        depth > 0,
        node.0 is FunctionCall,
    ensures
        evaluated(r, final(s), final(session)) == eval(
            host,
            *node,
            old(s).view(),
            text_of(*p),
            old(session).view(),
            depth as nat,
        ),
        final(session).limit() == old(session).limit(),
    decreases depth, 0nat, 0nat,
{
    proof {
        reveal(eval);
        reveal(eval_args);
        reveal(call);
    }
    match &node.0 {
        Expr::FunctionCall(ident, args) => {
            let target = value_of(s, ident.as_str());
            let f = match target {
                Value::Function(f) => f,
                _ => {
                    return Err(
                        Error::runtime(
                            ErrorKind::NoSuchFunction,
                            join2("No function exists with the name ", ident.as_str()),
                            &node.1,
                        ),
                    );
                },
            };
            match step_args(host, args, s, p, session, depth - 1) {
                Err(e) => Err(e),
                Ok(values) => {
                    let mut all = values;
                    if f.wants_self() {
                        match s.container() {
                            None => {
                                return Err(
                                    Error::runtime(
                                        ErrorKind::CannotCallMethodStatically,
                                        "Function taking parameter 'self' cannot be called statically".to_owned(),
                                        &node.1,
                                    ),
                                );
                            },
                            Some(c) => {
                                let ghost before = values_view(all@);
                                let first = (*c).clone().anonymous();
                                all.insert(0, first);
                                assert(values_view(all@) =~= seq![
                                    (c.view(), SpanView::anonymous()),
                                ] + before);
                            },
                        }
                    }
                    call_function(host, &f, s, all, session, depth - 1)
                },
            }
        },
        _ => Ok(None),
    }
}

/// Evaluates an operator before one operand.
fn step_mondaic<H: Host>(
    host: &H,
    node: &ContextualExpr,
    s: &mut Scope,
    p: &Option<String>,
    session: &mut Session,
    depth: usize,
) -> (r: Result<Option<ContextualValue>, Error>)
    requires
        depth > 0,
        node.0 is MondaicOp,
    ensures
        evaluated(r, final(s), final(session)) == eval(
            host,
            *node,
            old(s).view(),
            text_of(*p),
            old(session).view(),
            depth as nat,
        ),
        final(session).limit() == old(session).limit(),
    decreases depth, 0nat, 0nat,
{
    proof {
        reveal(eval);
        reveal(operate);
    }
    match &node.0 {
        Expr::MondaicOp { verb, expr } => {
            match step_at(host, expr, s, p, session, depth - 1) {
                Err(e) => Err(e),
                Ok(None) => Err(
                    Error::runtime(
                        ErrorKind::MissingValue,
                        "Expression has no value".to_owned(),
                        &node.1,
                    ),
                ),
                Ok(Some(v)) => {
                    let mut operands: Vec<ContextualValue> = Vec::new();
                    operands.push(v);
                    assert(values_view(operands@) =~= seq![v.view()]);
                    apply_operator(
                        host,
                        verb.trait_name(),
                        verb.method_name(),
                        operands,
                        &node.1,
                        s,
                        session,
                        depth - 1,
                    )
                },
            }
        },
        _ => Ok(None),
    }
}

/// Evaluates an operator between two operands.
fn step_dyadic<H: Host>(
    host: &H,
    node: &ContextualExpr,
    s: &mut Scope,
    p: &Option<String>,
    session: &mut Session,
    depth: usize,
) -> (r: Result<Option<ContextualValue>, Error>)
    requires
        depth > 0,
        node.0 is DyadicOp,
    ensures
        evaluated(r, final(s), final(session)) == eval(
            host,
            *node,
            old(s).view(),
            text_of(*p),
            old(session).view(),
            depth as nat,
        ),
        final(session).limit() == old(session).limit(),
    decreases depth, 0nat, 0nat,
{
    proof {
        reveal(eval);
        reveal(operate);
    }
    match &node.0 {
        Expr::DyadicOp { verb, lhs, rhs } => {
            let left = match step_at(host, lhs, s, p, session, depth - 1) {
                Err(e) => {
                    return Err(e);
                },
                Ok(None) => {
                    return Err(
                        Error::runtime(
                            ErrorKind::MissingValue,
                            "Expression has no value".to_owned(),
                            &node.1,
                        ),
                    );
                },
                Ok(Some(v)) => v,
            };
            let right = match step_at(host, rhs, s, p, session, depth - 1) {
                Err(e) => {
                    return Err(e);
                },
                Ok(None) => {
                    return Err(
                        Error::runtime(
                            ErrorKind::MissingValue,
                            "Expression has no value".to_owned(),
                            &node.1,
                        ),
                    );
                },
                Ok(Some(v)) => v,
            };
            if !left.0.type_of().matches(&right.0, s) {
                return Err(
                    Error::runtime(
                        ErrorKind::DyadicTypeMismatch,
                        "Can't perform dyadic operations on differing types.".to_owned(),
                        &node.1,
                    ),
                );
            }
            let mut operands: Vec<ContextualValue> = Vec::new();
            operands.push(left);
            operands.push(right);
            assert(values_view(operands@) =~= seq![left.view(), right.view()]);
            apply_operator(
                host,
                verb.trait_name(),
                verb.method_name(),
                operands,
                &node.1,
                s,
                session,
                depth - 1,
            )
        },
        _ => Ok(None),
    }
}

/// Evaluates an export.
fn step_export<H: Host>(
    host: &H,
    node: &ContextualExpr,
    s: &mut Scope,
    p: &Option<String>,
    session: &mut Session,
    depth: usize,
) -> (r: Result<Option<ContextualValue>, Error>)
    requires
        depth > 0,
        node.0 is Export,
    ensures
        evaluated(r, final(s), final(session)) == eval(
            host,
            *node,
            old(s).view(),
            text_of(*p),
            old(session).view(),
            depth as nat,
        ),
        final(session).limit() == old(session).limit(),
    decreases depth, 0nat, 0nat,
{
    proof {
        reveal(eval);
    }
    match &node.0 {
        Expr::Export(expr) => {
            let key = match p {
                None => {
                    return Err(
                        Error::anonymous(
                            ErrorKind::NoModule,
                            "Can't export in a non-path based environment".to_owned(),
                        ),
                    );
                },
                Some(key) => key,
            };
            let sink = !s.exports();
            if sink {
                let module = match session.module(key.as_str()) {
                    Some(m) => m.child(),
                    None => Scope::new(),
                };
                s.use_export(module);
            }
            let r = step_at(host, expr, s, p, session, depth - 1);
            if sink {
                match s.clear_export() {
                    Some(exported) => {
                        session.set_module(key.as_str(), exported);
                    },
                    None => {},
                }
            }
            match r {
                Err(e) => Err(e),
                Ok(Some(v)) => Ok(Some(v)),
                Ok(None) => Ok(Some(Value::Undefined.anonymous())),
            }
        },
        _ => Ok(None),
    }
}

/// Evaluates an expression in the scope `s` of the module `p`, as deep as
/// the run allows.
pub fn step<H: Host>(
    node: &ContextualExpr,
    s: &mut Scope,
    p: &Option<String>,
    session: &mut Session,
    host: &H,
) -> (r: Result<Option<ContextualValue>, Error>)
    ensures
        evaluated(r, final(s), final(session)) == eval(
            host,
            *node,
            old(s).view(),
            text_of(*p),
            old(session).view(),
            old(session).limit() as nat,
        ),
        final(session).limit() == old(session).limit(),
{
    let depth = session.depth();
    step_at(host, node, s, p, session, depth)
}

/// Evaluates a program in the scope `s`, or in a new scope with the
/// built-ins where none is given, and hands the scope back.
pub fn process<H: Host>(
    tree: &Vec<ContextualExpr>,
    s: Option<Scope>,
    p: &Option<String>,
    session: &mut Session,
    host: &H,
) -> (r: (Result<Option<ContextualValue>, Error>, Scope))
    ensures
        evaluated(r.0, &r.1, final(session)) == process_spec(
            host,
            tree@,
            match s {
                Some(scope) => scope.view(),
                None => seeded(ScopeView::empty()),
            },
            text_of(*p),
            old(session).view(),
            old(session).limit() as nat,
        ),
        final(session).limit() == old(session).limit(),
{
    let mut scope = match s {
        Some(scope) => scope,
        None => {
            let mut fresh = Scope::new();
            default_impl(&mut fresh);
            fresh
        },
    };
    let depth = session.depth();
    let r = process_at(host, tree, &mut scope, p, session, depth);
    (r, scope)
}

impl Function {
    /// Calls the function with the arguments `inputs` from the scope `scope`.
    pub fn call<H: Host>(
        &self,
        scope: &Scope,
        inputs: Vec<ContextualValue>,
        session: &mut Session,
        host: &H,
    ) -> (r: Result<Option<ContextualValue>, Error>)
        ensures
            called(r, final(session)) == call(
                host,
                self.view(),
                values_view(inputs@),
                scope.view(),
                old(session).view(),
                old(session).limit() as nat,
            ),
            final(session).limit() == old(session).limit(),
    {
        let depth = session.depth();
        call_function(host, &Arc::new(self.clone()), scope, inputs, session, depth)
    }
}

impl BasicFunction {
    /// Calls the function with the arguments `inputs` from the scope `scope`.
    pub fn call<H: Host>(
        &self,
        scope: &Scope,
        inputs: Vec<ContextualValue>,
        session: &mut Session,
        host: &H,
    ) -> (r: Result<Option<ContextualValue>, Error>)
        ensures
            called(r, final(session)) == call(
                host,
                self.view(),
                values_view(inputs@),
                scope.view(),
                old(session).view(),
                old(session).limit() as nat,
            ),
            final(session).limit() == old(session).limit(),
    {
        let depth = session.depth();
        call_function(host, &self.clone().packaged(), scope, inputs, session, depth)
    }
}

impl BuiltinFunction {
    /// Calls the function with the arguments `inputs` from the scope `scope`.
    pub fn call<H: Host>(
        &self,
        scope: &Scope,
        inputs: Vec<ContextualValue>,
        session: &mut Session,
        host: &H,
    ) -> (r: Result<Option<ContextualValue>, Error>)
        ensures
            called(r, final(session)) == call(
                host,
                self.view(),
                values_view(inputs@),
                scope.view(),
                old(session).view(),
                old(session).limit() as nat,
            ),
            final(session).limit() == old(session).limit(),
    {
        let depth = session.depth();
        call_function(host, &self.clone().packaged(), scope, inputs, session, depth)
    }
}

} // verus!
