//! From the syntax tree that a parser hands over to expressions.

use vstd::prelude::*;
use vstd::string::*;
use std::sync::Arc;
use crate::errors::{runtime_error, Error, ErrorKind, ErrorView};
use crate::project::{join_with, joined, piece, texts};
use crate::runtime::scope::{Scope, ScopeView};
use crate::runtime::session::Session;
use crate::runtime::Host;
use crate::sitter::expr::{
    exprs_view, optional_text, pairs_view, strings_view, ContextualExpr, Expr, ExprView,
};
use crate::sitter::op::{dyadic_of, get_dyadic};
use crate::sitter::{Span, SpanView};
use crate::text::{chars_of, has_prefix, same_text, skip, starts_with};

verus! {

/// A node of a syntax tree: its kind in the grammar, its place and text,
/// whether it is an extra or an error, and the nodes below it.
#[derive(Debug)]
pub struct Node {
    pub kind: String,
    pub span: Span,
    pub extra: bool,
    pub error: bool,
    pub children: Vec<Node>,
}

/// An expression with its place, or an error.
pub type Lowered = Result<(ExprView, SpanView), ErrorView>;

/// Expressions with their places, or an error.
pub type LoweredList = Result<Seq<(ExprView, SpanView)>, ErrorView>;

/// The error of a node that does not have the parts that its kind asks for.
pub open spec fn malformed(node: Node) -> ErrorView {
    runtime_error(ErrorKind::Other, "Malformed syntax tree"@, node.span.view())
}

/// The error of a node whose kind stands for no expression.
pub open spec fn unimplemented(node: Node) -> ErrorView {
    runtime_error(ErrorKind::Other, "Unimplemented expr"@, node.span.view())
}

/// The expression of a literal or a name; nothing for a node of another kind.
pub open spec fn lower_literal<H: Host>(host: &H, node: Node) -> Option<Lowered> {
    let kind = node.kind@;
    let text = node.span.text@;
    let span = node.span.view();
    if kind == "null"@ {
        Some(Ok((ExprView::Undefined, span)))
    } else if kind == "identifier"@ {
        Some(Ok((ExprView::Ident(text), span)))
    } else if kind == "string"@ {
        Some(Ok((ExprView::String(text), span)))
    } else if kind == "number"@ {
        Some(
            match host.parsed(text) {
                Some(bits) => Ok((ExprView::Number(bits), span)),
                None => Err(runtime_error(ErrorKind::Other, "invalid float literal"@, span)),
            },
        )
    } else if kind == "boolean"@ {
        Some(
            if text == "true"@ {
                Ok((ExprView::Boolean(true), span))
            } else if text == "false"@ {
                Ok((ExprView::Boolean(false), span))
            } else {
                Err(
                    runtime_error(
                        ErrorKind::Other,
                        "provided string was not `true` or `false`"@,
                        span,
                    ),
                )
            },
        )
    } else {
        None
    }
}

/// How the nodes of a list are read.
pub enum Reading {
    /// Each node is an expression.
    Exprs,
    /// Each node is a term.
    Terms,
    /// Each node but the commas is an expression.
    Args,
}

/// Whether a node is a comma.
pub open spec fn is_comma(node: Node) -> bool {
    node.kind@ == "comma"@
}

/// Whether one of the first `n` nodes is of the kind `kind`.
pub open spec fn has_kind(nodes: Seq<Node>, kind: Seq<char>, n: nat) -> bool
    decreases n,
{
    if n == 0 || n > nodes.len() {
        false
    } else {
        nodes[n - 1].kind@ == kind || has_kind(nodes, kind, (n - 1) as nat)
    }
}

/// The text of the last of the first `n` nodes that is of the kind `typed`.
pub open spec fn last_typed(nodes: Seq<Node>, n: nat) -> Option<Seq<char>>
    decreases n,
{
    if n == 0 || n > nodes.len() {
        None
    } else if nodes[n - 1].kind@ == "typed"@ {
        Some(nodes[n - 1].span.text@)
    } else {
        last_typed(nodes, (n - 1) as nat)
    }
}

/// A type's name without the colon and the space before it.
pub open spec fn without_colon(text: Seq<char>) -> Seq<char> {
    if has_prefix(text, ": "@) {
        text.subrange(": "@.len() as int, text.len() as int)
    } else {
        text
    }
}

/// The parameters among the first `n` nodes of a list of parameters: each
/// node but the commas has two nodes below it, the name and the type.
pub open spec fn params_in(nodes: Seq<Node>, n: nat) -> Result<Seq<(Seq<char>, Seq<char>)>, ErrorView>
    decreases n,
{
    if n == 0 || n > nodes.len() {
        Ok(Seq::empty())
    } else {
        match params_in(nodes, (n - 1) as nat) {
            Err(e) => Err(e),
            Ok(before) => {
                let node = nodes[n - 1];
                if is_comma(node) {
                    Ok(before)
                } else if node.children@.len() != 2 {
                    Err(malformed(node))
                } else {
                    Ok(
                        before.push(
                            (
                                node.children@[0].span.text@,
                                without_colon(node.children@[1].span.text@),
                            ),
                        ),
                    )
                }
            },
        }
    }
}

/// The parameters in the lists of parameters among the first `n` nodes of a
/// function's outline.
pub open spec fn params_of(nodes: Seq<Node>, n: nat) -> Result<Seq<(Seq<char>, Seq<char>)>, ErrorView>
    decreases n,
{
    if n == 0 || n > nodes.len() {
        Ok(Seq::empty())
    } else {
        match params_of(nodes, (n - 1) as nat) {
            Err(e) => Err(e),
            Ok(before) => {
                let node = nodes[n - 1];
                if node.kind@ == "typed_args"@ {
                    match params_in(node.children@, node.children@.len()) {
                        Err(e) => Err(e),
                        Ok(more) => Ok(before + more),
                    }
                } else {
                    Ok(before)
                }
            },
        }
    }
}

/// The place of the first two colons in a row among the first `n`
/// characters, or -1.
pub open spec fn first_colons(s: Seq<char>, n: nat) -> int
    decreases n,
{
    if n < 2 || n > s.len() {
        -1
    } else if first_colons(s, (n - 1) as nat) >= 0 {
        first_colons(s, (n - 1) as nat)
    } else if s[n - 2] == ':' && s[n - 1] == ':' {
        n - 2
    } else {
        -1
    }
}

/// The parts of a module path between its double colons.
pub open spec fn split_colons(s: Seq<char>) -> Seq<Seq<char>>
    decreases s.len(),
{
    let i = first_colons(s, s.len());
    if 0 <= i && i + 2 <= s.len() {
        seq![s.subrange(0, i)] + split_colons(s.subrange(i + 2, s.len() as int))
    } else {
        seq![s]
    }
}

/// The texts of the first `n` nodes.
pub open spec fn node_texts(nodes: Seq<Node>, n: nat) -> Seq<Seq<char>>
    decreases n,
{
    if n == 0 || n > nodes.len() {
        Seq::empty()
    } else {
        node_texts(nodes, (n - 1) as nat).push(nodes[n - 1].span.text@)
    }
}

/// The module path that an import names, with the package's own name for a
/// leading `self`, and double colons between its parts.
pub open spec fn module_key(path: Seq<char>, own: Seq<char>) -> Seq<char> {
    let parts = split_colons(path);
    let full = if parts[0] == "self"@ {
        parts.update(0, own)
    } else {
        parts
    };
    joined(full, "::"@, full.len())
}

/// What a module has exported, nothing where it is not known.
pub open spec fn module_scope(modules: Map<Seq<char>, ScopeView>, key: Seq<char>) -> ScopeView {
    if modules.contains_key(key) {
        modules[key]
    } else {
        ScopeView::empty()
    }
}

/// The expression that a node stands for, in a package named `own` with the
/// modules `modules` at hand.
pub open spec fn lower_expr<H: Host>(
    host: &H,
    node: Node,
    modules: Map<Seq<char>, ScopeView>,
    own: Seq<char>,
) -> Lowered
    decreases node, 0nat,
{
    let kind = node.kind@;
    let kids = node.children@;
    let span = node.span.view();
    if kind == "thing"@ || kind == "expr"@ {
        if kids.len() == 0 {
            Err(malformed(node))
        } else {
            lower_expr(host, kids[0], modules, own)
        }
    } else if lower_literal(host, node) is Some {
        lower_literal(host, node)->Some_0
    } else if kind == "return"@ || kind == "export"@ {
        if kids.len() < 2 {
            Err(malformed(node))
        } else {
            match lower_expr(host, kids[1], modules, own) {
                Err(e) => Err(e),
                Ok(inner) => Ok(
                    (
                        if kind == "return"@ {
                            ExprView::Return(Box::new(inner))
                        } else {
                            ExprView::Export(Box::new(inner))
                        },
                        span,
                    ),
                ),
            }
        }
    } else if kind == "term"@ || kind == "term_excl"@ || kind == "terms"@ {
        match lower_list(host, kids, kids.len(), Reading::Terms, modules, own) {
            Err(e) => Err(e),
            Ok(list) => if list.len() == 1 {
                Ok((list[0].0, span))
            } else {
                Ok((ExprView::Terms(list), span))
            },
        }
    } else if kind == "uses"@ {
        if kids.len() == 0 {
            Err(malformed(node))
        } else {
            Ok(
                (
                    ExprView::Import(
                        module_scope(modules, module_key(kids.last().span.text@, own)),
                        node_texts(kids, (kids.len() - 1) as nat),
                    ),
                    span,
                ),
            )
        }
    } else if kind == "fn_decl"@ {
        if kids.len() != 3 || kids[2].children@.len() < 2 {
            Err(malformed(node))
        } else {
            let block = kids[2].children@.subrange(1, kids[2].children@.len() - 1);
            match lower_list(host, block, block.len(), Reading::Exprs, modules, own) {
                Err(e) => Err(e),
                Ok(list) => match params_of(kids[0].children@, kids[0].children@.len()) {
                    Err(e) => Err(e),
                    Ok(args) => Ok(
                        (
                            ExprView::FunctionDeclaration {
                                args,
                                return_type: last_typed(
                                    kids[0].children@,
                                    kids[0].children@.len(),
                                ),
                                body: list,
                            },
                            span,
                        ),
                    ),
                },
            }
        }
    } else if kind == "fn_call"@ {
        if kids.len() != 4 {
            Err(malformed(node))
        } else {
            match lower_list(
                host,
                kids[2].children@,
                kids[2].children@.len(),
                Reading::Args,
                modules,
                own,
            ) {
                Err(e) => Err(e),
                Ok(args) => Ok((ExprView::FunctionCall(kids[0].span.text@, args), span)),
            }
        }
    } else if kind == "var_decl"@ {
        if has_kind(kids, "colon"@, kids.len()) {
            if kids.len() != 5 {
                Err(malformed(node))
            } else {
                match lower_expr(host, kids[4], modules, own) {
                    Err(e) => Err(e),
                    Ok(value) => Ok(
                        (
                            ExprView::Declaration {
                                ident: kids[1].span.text@,
                                typed: Some(kids[3].span.text@),
                                expr: Box::new(value),
                            },
                            span,
                        ),
                    ),
                }
            }
        } else {
            if kids.len() != 4 {
                Err(malformed(node))
            } else {
                match lower_expr(host, kids[3], modules, own) {
                    Err(e) => Err(e),
                    Ok(value) => Ok(
                        (
                            ExprView::Declaration {
                                ident: kids[1].span.text@,
                                typed: None,
                                expr: Box::new(value),
                            },
                            span,
                        ),
                    ),
                }
            }
        }
    } else if kind == "dyadic"@ {
        if kids.len() % 2 == 0 {
            Err(malformed(node))
        } else {
            match lower_chain(host, kids, ((kids.len() - 1) / 2) as nat, modules, own) {
                Err(e) => Err(e),
                Ok(chain) => Ok((chain.0, span)),
            }
        }
    } else {
        Err(unimplemented(node))
    }
}

/// The expression that the last `2 * pairs + 1` of the nodes of an operation
/// stand for: operands with operators between them, grouped from the right.
/// Each operation is at the place of its operator.
pub open spec fn lower_chain<H: Host>(
    host: &H,
    kids: Seq<Node>,
    pairs: nat,
    modules: Map<Seq<char>, ScopeView>,
    own: Seq<char>,
) -> Lowered
    decreases kids, pairs,
{
    if kids.len() < 2 * pairs + 1 {
        Err(runtime_error(ErrorKind::Other, "Malformed syntax tree"@, SpanView::anonymous()))
    } else if pairs == 0 {
        lower_expr(host, kids[kids.len() - 1], modules, own)
    } else {
        match lower_chain(host, kids, (pairs - 1) as nat, modules, own) {
            Err(e) => Err(e),
            Ok(right) => {
                let verb = kids[kids.len() - 2 * pairs];
                match lower_expr(host, kids[kids.len() - 2 * pairs - 1], modules, own) {
                    Err(e) => Err(e),
                    Ok(left) => match dyadic_of(verb.span.text@) {
                        None => Err(
                            runtime_error(
                                ErrorKind::Other,
                                "Failed to parse dyad"@,
                                verb.span.view(),
                            ),
                        ),
                        Some(op) => Ok(
                            (
                                ExprView::DyadicOp {
                                    verb: op,
                                    lhs: Box::new(left),
                                    rhs: Box::new(right),
                                },
                                verb.span.view(),
                            ),
                        ),
                    },
                }
            },
        }
    }
}

/// The expression that a node stands for as a term.
pub open spec fn lower_term<H: Host>(
    host: &H,
    node: Node,
    modules: Map<Seq<char>, ScopeView>,
    own: Seq<char>,
) -> Lowered
    decreases node, 1nat,
{
    let kind = node.kind@;
    let kids = node.children@;
    if kind == "term"@ || kind == "term_excl"@ {
        if kids.len() == 0 {
            Err(malformed(node))
        } else {
            lower_expr(host, kids[0], modules, own)
        }
    } else if kind == "literal"@ {
        if kids.len() == 0 {
            Err(malformed(node))
        } else {
            lower_term(host, kids[0], modules, own)
        }
    } else {
        lower_expr(host, node, modules, own)
    }
}

/// The expressions that the first `n` nodes stand for, in order, or the first
/// error among them.
pub open spec fn lower_list<H: Host>(
    host: &H,
    nodes: Seq<Node>,
    n: nat,
    reading: Reading,
    modules: Map<Seq<char>, ScopeView>,
    own: Seq<char>,
) -> LoweredList
    decreases nodes, n,
{
    if n == 0 || n > nodes.len() {
        Ok(Seq::empty())
    } else {
        match lower_list(host, nodes, (n - 1) as nat, reading, modules, own) {
            Err(e) => Err(e),
            Ok(before) => {
                let node = nodes[n - 1];
                match reading {
                    Reading::Exprs => match lower_expr(host, node, modules, own) {
                        Err(e) => Err(e),
                        Ok(x) => Ok(before.push(x)),
                    },
                    Reading::Terms => match lower_term(host, node, modules, own) {
                        Err(e) => Err(e),
                        Ok(x) => Ok(before.push(x)),
                    },
                    Reading::Args => if is_comma(node) {
                        Ok(before)
                    } else {
                        match lower_expr(host, node, modules, own) {
                            Err(e) => Err(e),
                            Ok(x) => Ok(before.push(x)),
                        }
                    },
                }
            },
        }
    }
}

/// What a parse gives: the expressions of a program, and the places of its
/// syntax errors.
pub ghost struct Parsed {
    pub ast: Seq<(ExprView, SpanView)>,
    pub errors: Seq<SpanView>,
}

/// What the first `n` nodes of a program stand for: extras are passed over,
/// the places of errors are collected, and every other node is an
/// expression.
pub open spec fn parse_spec<H: Host>(
    host: &H,
    nodes: Seq<Node>,
    n: nat,
    modules: Map<Seq<char>, ScopeView>,
    own: Seq<char>,
) -> Result<Parsed, ErrorView>
    decreases n,
{
    if n == 0 || n > nodes.len() {
        Ok(Parsed { ast: Seq::empty(), errors: Seq::empty() })
    } else {
        match parse_spec(host, nodes, (n - 1) as nat, modules, own) {
            Err(e) => Err(e),
            Ok(before) => {
                let node = nodes[n - 1];
                if node.extra {
                    Ok(before)
                } else if node.error {
                    Ok(Parsed { errors: before.errors.push(node.span.view()), ..before })
                } else {
                    match lower_expr(host, node, modules, own) {
                        Err(e) => Err(e),
                        Ok(x) => Ok(Parsed { ast: before.ast.push(x), ..before }),
                    }
                }
            },
        }
    }
}

/// The module paths that the imports in a tree name, in the order of the
/// tree.
pub open spec fn imports_of(node: Node) -> Seq<Seq<char>>
    decreases node, 0nat,
{
    if node.kind@ == "uses"@ && node.children@.len() > 0 {
        seq![node.children@.last().span.text@]
    } else {
        imports_among(node.children@, node.children@.len())
    }
}

/// The module paths that the imports in the first `n` trees name.
pub open spec fn imports_among(nodes: Seq<Node>, n: nat) -> Seq<Seq<char>>
    decreases nodes, n,
{
    if n == 0 || n > nodes.len() {
        Seq::empty()
    } else {
        imports_among(nodes, (n - 1) as nat) + imports_of(nodes[n - 1])
    }
}

/// Adds the module paths that the imports in a tree name to `found`.
pub fn imports(node: &Node, found: &mut Vec<String>)
    ensures
        strings_view(final(found)@) == strings_view(old(found)@) + imports_of(*node),
    decreases node, 0nat,
{
    let ghost start = strings_view(found@);
    if same_text(node.kind.as_str(), "uses") && node.children.len() > 0 {
        found.push(node.children[node.children.len() - 1].span.text.clone());
        assert(strings_view(found@) =~= start + imports_of(*node));
    } else {
        let mut i: usize = 0;
        assert(strings_view(found@) =~= start + imports_among(node.children@, 0));
        while i < node.children.len()
            invariant
                i <= node.children.len(),
                strings_view(found@) == start + imports_among(node.children@, i as nat),
            decreases node.children.len() - i,
        {
            let ghost before = strings_view(found@);
            imports(&node.children[i], found);
            assert(before + imports_of(node.children@[i as int]) =~= start + imports_among(
                node.children@,
                (i + 1) as nat,
            ));
            i = i + 1;
        }
    }
}

/// The result of a lowering as a mathematical value.
pub open spec fn lowered(r: Result<ContextualExpr, Error>) -> Lowered {
    match r {
        Ok(e) => Ok(e.view()),
        Err(e) => Err(e.view()),
    }
}

/// The result of the lowering of a list as a mathematical value.
pub open spec fn lowered_list(r: Result<Vec<ContextualExpr>, Error>) -> LoweredList {
    match r {
        Ok(list) => Ok(exprs_view(list@)),
        Err(e) => Err(e.view()),
    }
}

/// Once a list has failed, more of it changes nothing.
pub proof fn lemma_list_fails<H: Host>(
    host: &H,
    nodes: Seq<Node>,
    n: nat,
    m: nat,
    reading: Reading,
    modules: Map<Seq<char>, ScopeView>,
    own: Seq<char>,
)
    requires
        n <= m <= nodes.len(),
        lower_list(host, nodes, n, reading, modules, own) is Err,
    ensures
        lower_list(host, nodes, m, reading, modules, own) == lower_list(host, nodes, n, reading, modules, own),
    decreases m,
{
    if n < m {
        lemma_list_fails(host, nodes, n, (m - 1) as nat, reading, modules, own);
    }
}

/// Once a chain of operations has failed, more of it changes nothing.
pub proof fn lemma_chain_fails<H: Host>(
    host: &H,
    kids: Seq<Node>,
    n: nat,
    m: nat,
    modules: Map<Seq<char>, ScopeView>,
    own: Seq<char>,
)
    requires
        n <= m,
        2 * m + 1 <= kids.len(),
        lower_chain(host, kids, n, modules, own) is Err,
    ensures
        lower_chain(host, kids, m, modules, own) == lower_chain(host, kids, n, modules, own),
    decreases m,
{
    if n < m {
        lemma_chain_fails(host, kids, n, (m - 1) as nat, modules, own);
    }
}

/// Once a list of parameters has failed, more of it changes nothing.
pub proof fn lemma_params_in_fail(nodes: Seq<Node>, n: nat, m: nat)
    requires
        n <= m <= nodes.len(),
        params_in(nodes, n) is Err,
    ensures
        params_in(nodes, m) == params_in(nodes, n),
    decreases m,
{
    if n < m {
        lemma_params_in_fail(nodes, n, (m - 1) as nat);
    }
}

/// Once an outline has failed, more of it changes nothing.
pub proof fn lemma_params_of_fail(nodes: Seq<Node>, n: nat, m: nat)
    requires
        n <= m <= nodes.len(),
        params_of(nodes, n) is Err,
    ensures
        params_of(nodes, m) == params_of(nodes, n),
    decreases m,
{
    if n < m {
        lemma_params_of_fail(nodes, n, (m - 1) as nat);
    }
}

/// Once a program has failed, more of it changes nothing.
pub proof fn lemma_parse_fails<H: Host>(
    host: &H,
    nodes: Seq<Node>,
    n: nat,
    m: nat,
    modules: Map<Seq<char>, ScopeView>,
    own: Seq<char>,
)
    requires
        n <= m <= nodes.len(),
        parse_spec(host, nodes, n, modules, own) is Err,
    ensures
        parse_spec(host, nodes, m, modules, own) == parse_spec(host, nodes, n, modules, own),
    decreases m,
{
    if n < m {
        lemma_parse_fails(host, nodes, n, (m - 1) as nat, modules, own);
    }
}

/// Two colons in a row, once found, stay the first.
pub proof fn lemma_colons_found(s: Seq<char>, n: nat, m: nat)
    requires
        n <= m <= s.len(),
        first_colons(s, n) >= 0,
    ensures
        first_colons(s, m) == first_colons(s, n),
    decreases m,
{
    if n < m {
        lemma_colons_found(s, n, (m - 1) as nat);
    }
}

/// Where two colons in a row are found, they are within the text.
pub proof fn lemma_colons_within(s: Seq<char>, n: nat)
    requires
        n <= s.len(),
    ensures
        first_colons(s, n) >= 0 ==> first_colons(s, n) + 2 <= n,
        -1 <= first_colons(s, n),
    decreases n,
{
    if n >= 2 {
        lemma_colons_within(s, (n - 1) as nat);
    }
}

/// Whether two colons are among the first `n` characters depends on those
/// alone.
pub proof fn lemma_colons_prefix(a: Seq<char>, b: Seq<char>, n: nat)
    requires
        n <= a.len(),
        n <= b.len(),
        forall|k: int| 0 <= k < n ==> #[trigger] a[k] == b[k],
    ensures
        first_colons(a, n) == first_colons(b, n),
    decreases n,
{
    if n >= 2 {
        lemma_colons_prefix(a, b, (n - 1) as nat);
    }
}

/// The parts of a module path between its double colons.
pub fn split_path(path: &str) -> (r: Vec<String>)
    ensures
        texts(r@) == split_colons(path@),
        r@.len() > 0,
{
    let chars = chars_of(path);
    let mut parts: Vec<String> = Vec::new();
    let mut start: usize = 0;
    let mut i: usize = 0;
    assert(chars@.subrange(0, chars@.len() as int) =~= chars@);
    assert(texts(parts@) + split_colons(chars@.subrange(0, chars@.len() as int)) =~= split_colons(
        chars@,
    ));
    while i < chars.len()
        invariant
            start <= i <= chars.len(),
            chars@ == path@,
            split_colons(chars@) == texts(parts@) + split_colons(
                chars@.subrange(start as int, chars@.len() as int),
            ),
            first_colons(
                chars@.subrange(start as int, chars@.len() as int),
                (i - start) as nat,
            ) == -1,
        decreases chars.len() - i,
    {
        let ghost tail = chars@.subrange(start as int, chars@.len() as int);
        i = i + 1;
        if i - start >= 2 && chars[i - 2] == ':' && chars[i - 1] == ':' {
            proof {
                assert(tail[i - start - 2] == ':' && tail[i - start - 1] == ':');
                assert(first_colons(tail, (i - start) as nat) == i - start - 2);
                lemma_colons_found(tail, (i - start) as nat, tail.len());
            }
            let ghost before = texts(parts@);
            let part = piece(&chars, start, i - 2);
            parts.push(part);
            proof {
                assert(tail.subrange(0, i - start - 2) =~= chars@.subrange(start as int, i - 2));
                assert(tail.subrange(i - start, tail.len() as int) =~= chars@.subrange(
                    i as int,
                    chars@.len() as int,
                ));
                assert(texts(parts@) =~= before.push(part@));
                assert(before + (seq![part@] + split_colons(
                    chars@.subrange(i as int, chars@.len() as int),
                )) =~= texts(parts@) + split_colons(
                    chars@.subrange(i as int, chars@.len() as int),
                ));
            }
            start = i;
        }
    }
    let ghost tail = chars@.subrange(start as int, chars@.len() as int);
    let ghost before = texts(parts@);
    let part = piece(&chars, start, chars.len());
    parts.push(part);
    proof {
        assert(split_colons(tail) == seq![tail]);
        assert(texts(parts@) =~= before.push(part@));
        assert(before + seq![tail] =~= before.push(tail));
    }
    parts
}

/// The expression of a literal or a name; nothing for a node of another kind.
pub fn literal<H: Host>(host: &H, node: &Node) -> (r: Option<Result<ContextualExpr, Error>>)
    ensures
        match r {
            Some(e) => lower_literal(host, *node) == Some(lowered(e)),
            None => lower_literal(host, *node) is None,
        },
{
    let kind = node.kind.as_str();
    let text = node.span.text.as_str();
    if same_text(kind, "null") {
        Some(Ok(Expr::Undefined.context(node.span.clone())))
    } else if same_text(kind, "identifier") {
        Some(Ok(Expr::Ident(text.to_owned()).context(node.span.clone())))
    } else if same_text(kind, "string") {
        Some(Ok(Expr::String(text.to_owned()).context(node.span.clone())))
    } else if same_text(kind, "number") {
        Some(
            match host.parse_number(text) {
                Some(bits) => Ok(Expr::Number(bits).context(node.span.clone())),
                None => Err(
                    Error::runtime(ErrorKind::Other, "invalid float literal".to_owned(), &node.span),
                ),
            },
        )
    } else if same_text(kind, "boolean") {
        Some(
            if same_text(text, "true") {
                Ok(Expr::Boolean(true).context(node.span.clone()))
            } else if same_text(text, "false") {
                Ok(Expr::Boolean(false).context(node.span.clone()))
            } else {
                Err(
                    Error::runtime(
                        ErrorKind::Other,
                        "provided string was not `true` or `false`".to_owned(),
                        &node.span,
                    ),
                )
            },
        )
    } else {
        None
    }
}

/// The error of a node that does not have the parts that its kind asks for.
fn malformed_at(node: &Node) -> (r: Error)
    ensures
        r.view() == malformed(*node),
{
    Error::runtime(ErrorKind::Other, "Malformed syntax tree".to_owned(), &node.span)
}

/// Whether one of the nodes is of the kind `kind`.
pub fn any_of_kind(nodes: &Vec<Node>, kind: &str) -> (r: bool)
    ensures
        r == has_kind(nodes@, kind@, nodes@.len()),
{
    let mut i: usize = 0;
    let mut found = false;
    while i < nodes.len()
        invariant
            i <= nodes.len(),
            found == has_kind(nodes@, kind@, i as nat),
        decreases nodes.len() - i,
    {
        if same_text(nodes[i].kind.as_str(), kind) {
            found = true;
        }
        i = i + 1;
    }
    found
}

/// The text of the last node of the kind `typed`.
pub fn return_type_of(nodes: &Vec<Node>) -> (r: Option<String>)
    ensures
        optional_text(r) == last_typed(nodes@, nodes@.len()),
{
    let mut i: usize = 0;
    let mut found: Option<String> = None;
    while i < nodes.len()
        invariant
            i <= nodes.len(),
            optional_text(found) == last_typed(nodes@, i as nat),
        decreases nodes.len() - i,
    {
        if same_text(nodes[i].kind.as_str(), "typed") {
            found = Some(nodes[i].span.text.clone());
        }
        i = i + 1;
    }
    found
}

/// The parameters of a function's outline.
pub fn parameters(nodes: &Vec<Node>) -> (r: Result<Vec<(String, String)>, Error>)
    ensures
        match r {
            Ok(list) => params_of(nodes@, nodes@.len()) == Ok::<
                Seq<(Seq<char>, Seq<char>)>,
                ErrorView,
            >(pairs_view(list@)),
            Err(e) => params_of(nodes@, nodes@.len()) == Err::<
                Seq<(Seq<char>, Seq<char>)>,
                ErrorView,
            >(e.view()),
        },
{
    let mut out: Vec<(String, String)> = Vec::new();
    let mut i: usize = 0;
    assert(pairs_view(out@) =~= Seq::empty());
    while i < nodes.len()
        invariant
            i <= nodes.len(),
            params_of(nodes@, i as nat) == Ok::<Seq<(Seq<char>, Seq<char>)>, ErrorView>(
                pairs_view(out@),
            ),
        decreases nodes.len() - i,
    {
        if same_text(nodes[i].kind.as_str(), "typed_args") {
            let list = &nodes[i].children;
            let ghost base = pairs_view(out@);
            let mut j: usize = 0;
            assert(pairs_view(out@) =~= base + Seq::empty());
            while j < list.len()
                invariant
                    j <= list.len(),
                    i < nodes.len(),
                    list == &nodes@[i as int].children,
                    nodes@[i as int].kind@ == "typed_args"@,
                    params_of(nodes@, i as nat) == Ok::<Seq<(Seq<char>, Seq<char>)>, ErrorView>(
                        base,
                    ),
                    exists|more: Seq<(Seq<char>, Seq<char>)>|
                        params_in(list@, j as nat) == Ok::<Seq<(Seq<char>, Seq<char>)>, ErrorView>(
                            more,
                        ) && pairs_view(out@) == base + more,
                decreases list.len() - j,
            {
                let ghost more = choose|more: Seq<(Seq<char>, Seq<char>)>|
                    params_in(list@, j as nat) == Ok::<Seq<(Seq<char>, Seq<char>)>, ErrorView>(
                        more,
                    ) && pairs_view(out@) == base + more;
                let node = &list[j];
                if !same_text(node.kind.as_str(), "comma") {
                    if node.children.len() != 2 {
                        proof {
                            lemma_params_in_fail(list@, (j + 1) as nat, list@.len());
                            lemma_params_of_fail(nodes@, (i + 1) as nat, nodes@.len());
                        }
                        return Err(malformed_at(node));
                    }
                    let name = node.children[0].span.text.clone();
                    let declared = node.children[1].span.text.as_str();
                    proof {
                        reveal_strlit(": ");
                    }
                    let ty = if starts_with(declared, ": ") {
                        skip(declared, 2)
                    } else {
                        declared.to_owned()
                    };
                    let ghost before = pairs_view(out@);
                    out.push((name, ty));
                    proof {
                        let added = (name@, ty@);
                        assert(pairs_view(out@) =~= before.push(added));
                        assert(before.push(added) =~= base + more.push(added));
                        assert(params_in(list@, (j + 1) as nat) == Ok::<
                            Seq<(Seq<char>, Seq<char>)>,
                            ErrorView,
                        >(more.push(added)));
                    }
                } else {
                    assert(params_in(list@, (j + 1) as nat) == Ok::<
                        Seq<(Seq<char>, Seq<char>)>,
                        ErrorView,
                    >(more));
                }
                j = j + 1;
            }
        }
        i = i + 1;
    }
    Ok(out)
}

/// The texts of the first `n` nodes.
pub fn texts_of(nodes: &Vec<Node>, n: usize) -> (r: Vec<String>)
    requires
        n <= nodes@.len(),
    ensures
        strings_view(r@) == node_texts(nodes@, n as nat),
{
    let mut out: Vec<String> = Vec::new();
    let mut i: usize = 0;
    assert(strings_view(out@) =~= Seq::empty());
    while i < n
        invariant
            i <= n <= nodes.len(),
            strings_view(out@) == node_texts(nodes@, i as nat),
        decreases n - i,
    {
        let ghost before = strings_view(out@);
        out.push(nodes[i].span.text.clone());
        assert(strings_view(out@) =~= before.push(nodes@[i as int].span.text@));
        i = i + 1;
    }
    out
}

/// The name under which the module that an import names is known.
pub fn key_of(path: &str, own: &str) -> (r: String)
    ensures
        r@ == module_key(path@, own@),
{
    let mut parts = split_path(path);
    let ghost before = texts(parts@);
    if same_text(parts[0].as_str(), "self") {
        parts.set(0, own.to_owned());
        assert(texts(parts@) =~= before.update(0, own@));
    }
    join_with(&parts, "::")
}

/// The expression that a node stands for.
pub fn build_ast_from_expr<H: Host>(host: &H, node: &Node, modules: &Session, own: &str) -> (r: Result<
    ContextualExpr,
    Error,
>)
    ensures
        lowered(r) == lower_expr(host, *node, modules.view().modules, own@),
    decreases node, 0nat,
{
    let kind = node.kind.as_str();
    let kids = &node.children;
    if same_text(kind, "thing") || same_text(kind, "expr") {
        if kids.len() == 0 {
            return Err(malformed_at(node));
        }
        return build_ast_from_expr(host, &kids[0], modules, own);
    }
    match literal(host, node) {
        Some(r) => {
            return r;
        },
        None => {},
    }
    if same_text(kind, "return") || same_text(kind, "export") {
        if kids.len() < 2 {
            return Err(malformed_at(node));
        }
        let inner = match build_ast_from_expr(host, &kids[1], modules, own) {
            Ok(inner) => inner,
            Err(e) => {
                return Err(e);
            },
        };
        if same_text(kind, "return") {
            Ok(Expr::Return(Box::new(inner)).context(node.span.clone()))
        } else {
            Ok(Expr::Export(Box::new(inner)).context(node.span.clone()))
        }
    } else if same_text(kind, "term") || same_text(kind, "term_excl") || same_text(kind, "terms") {
        assert(kids@.subrange(0, kids@.len() as int) =~= kids@);
        let mut list = match build_list(host, kids, 0, kids.len(), Reading::Terms, modules, own) {
            Ok(list) => list,
            Err(e) => {
                return Err(e);
            },
        };
        if list.len() == 1 {
            let ghost only = list@[0];
            let first = list.remove(0);
            Ok(ContextualExpr(first.0, node.span.clone()))
        } else {
            Ok(Expr::Terms(list).context(node.span.clone()))
        }
    } else if same_text(kind, "uses") {
        if kids.len() == 0 {
            return Err(malformed_at(node));
        }
        let names = texts_of(kids, kids.len() - 1);
        let key = key_of(kids[kids.len() - 1].span.text.as_str(), own);
        let module = match modules.module(key.as_str()) {
            Some(m) => m,
            None => Arc::new(Scope::new()),
        };
        Ok(Expr::Import(module, names).context(node.span.clone()))
    } else if same_text(kind, "fn_decl") {
        if kids.len() != 3 || kids[2].children.len() < 2 {
            return Err(malformed_at(node));
        }
        let block = &kids[2].children;
        let body = match build_list(
            host,
            block,
            1,
            block.len() - 1,
            Reading::Exprs,
            modules,
            own,
        ) {
            Ok(list) => list,
            Err(e) => {
                return Err(e);
            },
        };
        let args = match parameters(&kids[0].children) {
            Ok(args) => args,
            Err(e) => {
                return Err(e);
            },
        };
        let return_type = return_type_of(&kids[0].children);
        Ok(
            Expr::FunctionDeclaration { args, return_type, body: Arc::new(body) }.context(
                node.span.clone(),
            ),
        )
    } else if same_text(kind, "fn_call") {
        if kids.len() != 4 {
            return Err(malformed_at(node));
        }
        let inner = &kids[2].children;
        assert(inner@.subrange(0, inner@.len() as int) =~= inner@);
        let args = match build_list(host, inner, 0, inner.len(), Reading::Args, modules, own) {
            Ok(list) => list,
            Err(e) => {
                return Err(e);
            },
        };
        Ok(Expr::FunctionCall(kids[0].span.text.clone(), args).context(node.span.clone()))
    } else if same_text(kind, "var_decl") {
        if any_of_kind(kids, "colon") {
            if kids.len() != 5 {
                return Err(malformed_at(node));
            }
            let value = match build_ast_from_expr(host, &kids[4], modules, own) {
                Ok(value) => value,
                Err(e) => {
                    return Err(e);
                },
            };
            Ok(
                Expr::Declaration {
                    ident: kids[1].span.text.clone(),
                    typed: Some(kids[3].span.text.clone()),
                    expr: Box::new(value),
                }.context(node.span.clone()),
            )
        } else {
            if kids.len() != 4 {
                return Err(malformed_at(node));
            }
            let value = match build_ast_from_expr(host, &kids[3], modules, own) {
                Ok(value) => value,
                Err(e) => {
                    return Err(e);
                },
            };
            Ok(
                Expr::Declaration {
                    ident: kids[1].span.text.clone(),
                    typed: None,
                    expr: Box::new(value),
                }.context(node.span.clone()),
            )
        }
    } else if same_text(kind, "dyadic") {
        if kids.len() % 2 == 0 {
            return Err(malformed_at(node));
        }
        match build_chain(host, kids, modules, own) {
            Ok(chain) => Ok(ContextualExpr(chain.0, node.span.clone())),
            Err(e) => Err(e),
        }
    } else {
        Err(Error::runtime(ErrorKind::Other, "Unimplemented expr".to_owned(), &node.span))
    }
}

/// The expression that the nodes of an operation stand for.
fn build_chain<H: Host>(host: &H, kids: &Vec<Node>, modules: &Session, own: &str) -> (r: Result<
    ContextualExpr,
    Error,
>)
    requires
        kids@.len() % 2 == 1,
    ensures
        lowered(r) == lower_chain(
            host,
            kids@,
            ((kids@.len() - 1) / 2) as nat,
            modules.view().modules,
            own@,
        ),
    decreases kids, 0nat,
{
    let pairs = (kids.len() - 1) / 2;
    let mut right = match build_ast_from_expr(host, &kids[kids.len() - 1], modules, own) {
        Ok(right) => right,
        Err(e) => {
            proof {
                lemma_chain_fails(host, kids@, 0, pairs as nat, modules.view().modules, own@);
            }
            return Err(e);
        },
    };
    let mut k: usize = 0;
    while k < pairs
        invariant
            k <= pairs,
            pairs == (kids@.len() - 1) / 2,
            kids@.len() % 2 == 1,
            lower_chain(host, kids@, k as nat, modules.view().modules, own@) == Ok::<
                (ExprView, SpanView),
                ErrorView,
            >(right.view()),
        decreases pairs - k,
    {
        k = k + 1;
        let verb = &kids[kids.len() - 2 * k];
        let left = match build_ast_from_expr(host, &kids[kids.len() - 2 * k - 1], modules, own) {
            Ok(left) => left,
            Err(e) => {
                proof {
                    lemma_chain_fails(host, kids@, k as nat, pairs as nat, modules.view().modules, own@);
                }
                return Err(e);
            },
        };
        right = match build_dyadic(verb, left, right) {
            Ok(e) => e,
            Err(e) => {
                proof {
                    lemma_chain_fails(host, kids@, k as nat, pairs as nat, modules.view().modules, own@);
                }
                return Err(e);
            },
        };
    }
    Ok(right)
}

/// The operation of the operator `node` on `lhs` and `rhs`, at the place of
/// the operator.
pub fn build_dyadic(node: &Node, lhs: ContextualExpr, rhs: ContextualExpr) -> (r: Result<
    ContextualExpr,
    Error,
>)
    ensures
        lowered(r) == (match dyadic_of(node.span.text@) {
            None => Err::<(ExprView, SpanView), ErrorView>(
                runtime_error(ErrorKind::Other, "Failed to parse dyad"@, node.span.view()),
            ),
            Some(op) => Ok::<(ExprView, SpanView), ErrorView>(
                (
                    ExprView::DyadicOp {
                        verb: op,
                        lhs: Box::new(lhs.view()),
                        rhs: Box::new(rhs.view()),
                    },
                    node.span.view(),
                ),
            ),
        }),
{
    match get_dyadic(node.span.text.as_str()) {
        None => Err(Error::runtime(ErrorKind::Other, "Failed to parse dyad".to_owned(), &node.span)),
        Some(verb) => Ok(
            Expr::DyadicOp { verb, lhs: Box::new(lhs), rhs: Box::new(rhs) }.context(
                node.span.clone(),
            ),
        ),
    }
}

/// The expression that a node stands for as a term.
pub fn build_ast_from_term<H: Host>(host: &H, node: &Node, modules: &Session, own: &str) -> (r: Result<
    ContextualExpr,
    Error,
>)
    ensures
        lowered(r) == lower_term(host, *node, modules.view().modules, own@),
    decreases node, 1nat,
{
    let kind = node.kind.as_str();
    let kids = &node.children;
    if same_text(kind, "term") || same_text(kind, "term_excl") {
        if kids.len() == 0 {
            return Err(malformed_at(node));
        }
        build_ast_from_expr(host, &kids[0], modules, own)
    } else if same_text(kind, "literal") {
        if kids.len() == 0 {
            return Err(malformed_at(node));
        }
        build_ast_from_term(host, &kids[0], modules, own)
    } else {
        build_ast_from_expr(host, node, modules, own)
    }
}

/// The expressions that the nodes from `from` up to `to` stand for.
fn build_list<H: Host>(
    host: &H,
    nodes: &Vec<Node>,
    from: usize,
    to: usize,
    reading: Reading,
    modules: &Session,
    own: &str,
) -> (r: Result<Vec<ContextualExpr>, Error>)
    requires
        from <= to <= nodes@.len(),
    ensures
        lowered_list(r) == lower_list(
            host,
            nodes@.subrange(from as int, to as int),
            (to - from) as nat,
            reading,
            modules.view().modules,
            own@,
        ),
    decreases nodes, 0nat,
{
    let ghost part = nodes@.subrange(from as int, to as int);
    let mut out: Vec<ContextualExpr> = Vec::new();
    let mut i: usize = from;
    assert(exprs_view(out@) =~= Seq::empty());
    while i < to
        invariant
            from <= i <= to <= nodes@.len(),
            part == nodes@.subrange(from as int, to as int),
            lower_list(host, part, (i - from) as nat, reading, modules.view().modules, own@) == Ok::<
                Seq<(ExprView, SpanView)>,
                ErrorView,
            >(exprs_view(out@)),
        decreases to - i,
    {
        let node = &nodes[i];
        assert(part[i - from] == nodes@[i as int]);
        let ghost before = exprs_view(out@);
        let skip_it = match reading {
            Reading::Args => same_text(node.kind.as_str(), "comma"),
            _ => false,
        };
        if !skip_it {
            let r = match reading {
                Reading::Terms => build_ast_from_term(host, node, modules, own),
                _ => build_ast_from_expr(host, node, modules, own),
            };
            match r {
                Err(e) => {
                    proof {
                        lemma_list_fails(
                            host,
                            part,
                            (i - from + 1) as nat,
                            (to - from) as nat,
                            reading,
                            modules.view().modules,
                            own@,
                        );
                    }
                    return Err(e);
                },
                Ok(x) => {
                    out.push(x);
                    assert(exprs_view(out@) =~= before.push(x.view()));
                },
            }
        }
        i = i + 1;
    }
    Ok(out)
}

/// The expressions of a program, and the places of its syntax errors: of the
/// nodes below `root`, extras are passed over, the places of errors are
/// collected, and every other node is an expression.
pub fn parse<H: Host>(host: &H, root: &Node, modules: &Session, own: &str) -> (r: Result<
    (Vec<ContextualExpr>, Vec<Span>),
    Error,
>)
    ensures
        match r {
            Ok(found) => parse_spec(
                host,
                root.children@,
                root.children@.len(),
                modules.view().modules,
                own@,
            ) == Ok::<Parsed, ErrorView>(
                Parsed {
                    ast: exprs_view(found.0@),
                    errors: Seq::new(found.1@.len(), |i: int| found.1@[i].view()),
                },
            ),
            Err(e) => parse_spec(
                host,
                root.children@,
                root.children@.len(),
                modules.view().modules,
                own@,
            ) == Err::<Parsed, ErrorView>(e.view()),
        },
{
    let nodes = &root.children;
    let mut ast: Vec<ContextualExpr> = Vec::new();
    let mut errors: Vec<Span> = Vec::new();
    let mut i: usize = 0;
    assert(exprs_view(ast@) =~= Seq::empty());
    assert(Seq::new(errors@.len(), |k: int| errors@[k].view()) =~= Seq::<SpanView>::empty());
    while i < nodes.len()
        invariant
            i <= nodes.len(),
            nodes@ == root.children@,
            parse_spec(host, nodes@, i as nat, modules.view().modules, own@) == Ok::<Parsed, ErrorView>(
                Parsed {
                    ast: exprs_view(ast@),
                    errors: Seq::new(errors@.len(), |k: int| errors@[k].view()),
                },
            ),
        decreases nodes.len() - i,
    {
        let node = &nodes[i];
        let ghost ast_before = exprs_view(ast@);
        let ghost errors_before = Seq::new(errors@.len(), |k: int| errors@[k].view());
        if node.extra {
        } else if node.error {
            errors.push(node.span.clone());
            assert(Seq::new(errors@.len(), |k: int| errors@[k].view()) =~= errors_before.push(
                node.span.view(),
            ));
        } else {
            match build_ast_from_expr(host, node, modules, own) {
                Err(e) => {
                    proof {
                        lemma_parse_fails(
                            host,
                            nodes@,
                            (i + 1) as nat,
                            nodes@.len(),
                            modules.view().modules,
                            own@,
                        );
                    }
                    return Err(e);
                },
                Ok(x) => {
                    ast.push(x);
                    assert(exprs_view(ast@) =~= ast_before.push(x.view()));
                },
            }
        }
        i = i + 1;
    }
    Ok((ast, errors))
}

} // verus!
