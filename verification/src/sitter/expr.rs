//! The expressions of the language.

use vstd::prelude::*;
use std::sync::Arc;
use crate::runtime::scope::{Scope, ScopeView};
use crate::sitter::op::{Dyadic, Mondaic};
use crate::sitter::{Span, SpanView};

verus! {

/// An expression and the place it was read from.
#[derive(Debug)]
pub struct ContextualExpr(pub Expr, pub Span);

/// An expression with its place, boxed.
pub type BCExpr = Box<ContextualExpr>;

/// An expression. A number is held by the bit pattern of its IEEE-754
/// binary64 value.
#[derive(Debug)]
pub enum Expr {
    Number(u64),
    Boolean(bool),
    String(String),
    Undefined,
    Terms(Vec<ContextualExpr>),
    Ident(String),
    Index(BCExpr, Vec<ContextualExpr>),
    FunctionCall(String, Vec<ContextualExpr>),
    FunctionDeclaration {
        args: Vec<(String, String)>,
        return_type: Option<String>,
        body: Arc<Vec<ContextualExpr>>,
    },
    Declaration { ident: String, typed: Option<String>, expr: BCExpr },
    Assignment { ident: String, expr: BCExpr },
    MondaicOp { verb: Mondaic, expr: BCExpr },
    DyadicOp { verb: Dyadic, lhs: BCExpr, rhs: BCExpr },
    Export(BCExpr),
    Import(Arc<Scope>, Vec<String>),
    Return(BCExpr),
}

/// An expression as a mathematical value.
pub ghost enum ExprView {
    Number(u64),
    Boolean(bool),
    String(Seq<char>),
    Undefined,
    Terms(Seq<(ExprView, SpanView)>),
    Ident(Seq<char>),
    Index(Box<(ExprView, SpanView)>, Seq<(ExprView, SpanView)>),
    FunctionCall(Seq<char>, Seq<(ExprView, SpanView)>),
    FunctionDeclaration {
        args: Seq<(Seq<char>, Seq<char>)>,
        return_type: Option<Seq<char>>,
        body: Seq<(ExprView, SpanView)>,
    },
    Declaration { ident: Seq<char>, typed: Option<Seq<char>>, expr: Box<(ExprView, SpanView)> },
    Assignment { ident: Seq<char>, expr: Box<(ExprView, SpanView)> },
    MondaicOp { verb: Mondaic, expr: Box<(ExprView, SpanView)> },
    DyadicOp { verb: Dyadic, lhs: Box<(ExprView, SpanView)>, rhs: Box<(ExprView, SpanView)> },
    Export(Box<(ExprView, SpanView)>),
    Import(ScopeView, Seq<Seq<char>>),
    Return(Box<(ExprView, SpanView)>),
}

/// Expressions with their places as mathematical values.
pub open spec fn exprs_view(list: Seq<ContextualExpr>) -> Seq<(ExprView, SpanView)>
    decreases list,
{
    Seq::new(
        list.len(),
        |i: int|
            if 0 <= i < list.len() {
                list[i].view()
            } else {
                (ExprView::Undefined, SpanView::anonymous())
            },
    )
}

/// The text of an optional string.
pub open spec fn optional_text(s: Option<String>) -> Option<Seq<char>> {
    match s {
        Some(t) => Some(t@),
        None => None,
    }
}

/// Pairs of strings as pairs of texts.
pub open spec fn pairs_view(list: Seq<(String, String)>) -> Seq<(Seq<char>, Seq<char>)> {
    Seq::new(list.len(), |i: int| (list[i].0@, list[i].1@))
}

/// Strings as texts.
pub open spec fn strings_view(list: Seq<String>) -> Seq<Seq<char>> {
    Seq::new(list.len(), |i: int| list[i]@)
}

impl ContextualExpr {
    pub open spec fn view(&self) -> (ExprView, SpanView)
        decreases self,
    {
        (self.0.view(), self.1.view())
    }
}

impl Expr {
    pub open spec fn view(&self) -> ExprView
        decreases self,
    {
        match self {
            Expr::Number(bits) => ExprView::Number(*bits),
            Expr::Boolean(b) => ExprView::Boolean(*b),
            Expr::String(text) => ExprView::String(text@),
            Expr::Undefined => ExprView::Undefined,
            Expr::Terms(list) => ExprView::Terms(exprs_view(list@)),
            Expr::Ident(name) => ExprView::Ident(name@),
            Expr::Index(target, chain) => ExprView::Index(
                Box::new(target.view()),
                exprs_view(chain@),
            ),
            Expr::FunctionCall(name, args) => ExprView::FunctionCall(name@, exprs_view(args@)),
            Expr::FunctionDeclaration { args, return_type, body } => ExprView::FunctionDeclaration {
                args: pairs_view(args@),
                return_type: optional_text(*return_type),
                body: exprs_view(body@),
            },
            Expr::Declaration { ident, typed, expr } => ExprView::Declaration {
                ident: ident@,
                typed: optional_text(*typed),
                expr: Box::new(expr.view()),
            },
            Expr::Assignment { ident, expr } => ExprView::Assignment {
                ident: ident@,
                expr: Box::new(expr.view()),
            },
            Expr::MondaicOp { verb, expr } => ExprView::MondaicOp {
                verb: *verb,
                expr: Box::new(expr.view()),
            },
            Expr::DyadicOp { verb, lhs, rhs } => ExprView::DyadicOp {
                verb: *verb,
                lhs: Box::new(lhs.view()),
                rhs: Box::new(rhs.view()),
            },
            Expr::Export(expr) => ExprView::Export(Box::new(expr.view())),
            Expr::Import(source, names) => ExprView::Import(source.view(), strings_view(names@)),
            Expr::Return(expr) => ExprView::Return(Box::new(expr.view())),
        }
    }

    /// The expression, at the place `s`.
    pub fn context(self, s: Span) -> (r: ContextualExpr)
        ensures
            r.0 == self,
            r.1 == s,
    {
        ContextualExpr(self, s)
    }
}

} // verus!
