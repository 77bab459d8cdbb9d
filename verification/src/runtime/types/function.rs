//! Functions: closures over expressions, and built-ins.

use vstd::prelude::*;
use std::sync::Arc;
use crate::runtime::types::{TypeView, ValueType};
use crate::text::{same_text, share};
use crate::sitter::expr::ContextualExpr;

verus! {

/// A function's parameters, in order, and what it returns.
#[derive(Debug, Clone)]
pub struct FunctionOutline {
    pub inputs: Vec<(String, ValueType)>,
    pub returns: Option<ValueType>,
}

/// What a built-in does when called.
#[derive(Debug, Clone, Copy, PartialEq, Eq, Structural)]
pub enum Native {
    /// Writes its argument `value` out, as text.
    Print,
    /// The text of `self`.
    ToString,
    /// The coloured text of `self`.
    ToPretty,
    /// `left` followed by `right`, both text.
    AddString,
    /// The sum of the numbers `left` and `right`.
    AddNumber,
    /// The character of the text `self` at the place `index`, counted from 1.
    IndexString,
    /// The clock's reading, in milliseconds since the Unix epoch.
    CurrentUnix,
}

/// A function written in the language: its outline and its body.
#[derive(Debug)]
pub struct BasicFunction {
    pub outline: Arc<FunctionOutline>,
    pub body: Arc<Vec<ContextualExpr>>,
}

/// A function that the interpreter brings along.
#[derive(Debug)]
pub struct BuiltinFunction {
    pub outline: Arc<FunctionOutline>,
    pub handler: Native,
}

/// A function of either kind.
#[derive(Debug)]
pub enum Function {
    Basic(BasicFunction),
    Builtin(BuiltinFunction),
}

/// An outline as a mathematical value.
pub ghost struct OutlineView {
    pub inputs: Seq<(Seq<char>, TypeView)>,
    pub returns: Option<Box<TypeView>>,
}

/// A function as a mathematical value.
pub ghost enum FunctionView {
    Basic { outline: OutlineView, body: Arc<Vec<ContextualExpr>> },
    Builtin { outline: OutlineView, handler: Native },
}

impl FunctionView {
    /// The function's outline.
    pub open spec fn outline(self) -> OutlineView {
        match self {
            FunctionView::Basic { outline, .. } => outline,
            FunctionView::Builtin { outline, .. } => outline,
        }
    }

    /// Whether the function is a method: its first parameter is named `self`.
    pub open spec fn wants_self(self) -> bool {
        self.outline().inputs.len() > 0 && self.outline().inputs[0].0 == "self"@
    }
}

impl FunctionOutline {
    pub open spec fn view(&self) -> OutlineView
        decreases self,
    {
        OutlineView {
            inputs: Seq::new(
                self.inputs@.len(),
                |i: int|
                    if 0 <= i < self.inputs@.len() {
                        (self.inputs@[i].0@, self.inputs@[i].1.view())
                    } else {
                        (Seq::empty(), TypeView::Undefined)
                    },
            ),
            returns: match self.returns {
                Some(t) => Some(Box::new(t.view())),
                None => None,
            },
        }
    }
}

impl Clone for BasicFunction {
    fn clone(&self) -> (r: Self)
        ensures
            r == *self,
    {
        BasicFunction { outline: share(&self.outline), body: share(&self.body) }
    }
}

impl Clone for BuiltinFunction {
    fn clone(&self) -> (r: Self)
        ensures
            r == *self,
    {
        BuiltinFunction { outline: share(&self.outline), handler: self.handler }
    }
}

impl Clone for Function {
    fn clone(&self) -> (r: Self)
        ensures
            r == *self,
    {
        match self {
            Function::Basic(f) => Function::Basic(f.clone()),
            Function::Builtin(f) => Function::Builtin(f.clone()),
        }
    }
}

impl BasicFunction {
    pub open spec fn view(&self) -> FunctionView {
        FunctionView::Basic { outline: self.outline.view(), body: self.body }
    }

    /// The function's parameters and what it returns.
    pub fn outline(&self) -> (r: Arc<FunctionOutline>)
        ensures
            r == self.outline,
    {
        share(&self.outline)
    }

    /// The function as a shared value.
    pub fn packaged(self) -> (r: Arc<Function>)
        ensures
            *r == Function::Basic(self),
    {
        Arc::new(Function::Basic(self))
    }

    /// Whether the function is a method: its first parameter is named `self`.
    pub fn wants_self(&self) -> (r: bool)
        ensures
            r == self.view().wants_self(),
    {
        self.outline.inputs.len() > 0 && same_text(self.outline.inputs[0].0.as_str(), "self")
    }
}

impl BuiltinFunction {
    pub open spec fn view(&self) -> FunctionView {
        FunctionView::Builtin { outline: self.outline.view(), handler: self.handler }
    }

    /// The function's parameters and what it returns.
    pub fn outline(&self) -> (r: Arc<FunctionOutline>)
        ensures
            r == self.outline,
    {
        share(&self.outline)
    }

    /// The function as a shared value.
    pub fn packaged(self) -> (r: Arc<Function>)
        ensures
            *r == Function::Builtin(self),
    {
        Arc::new(Function::Builtin(self))
    }

    /// Whether the function is a method: its first parameter is named `self`.
    pub fn wants_self(&self) -> (r: bool)
        ensures
            r == self.view().wants_self(),
    {
        self.outline.inputs.len() > 0 && same_text(self.outline.inputs[0].0.as_str(), "self")
    }
}

impl Function {
    pub open spec fn view(&self) -> FunctionView {
        match self {
            Function::Basic(f) => f.view(),
            Function::Builtin(f) => f.view(),
        }
    }

    /// The outline that the function holds.
    pub open spec fn outline_spec(&self) -> Arc<FunctionOutline> {
        match self {
            Function::Basic(f) => f.outline,
            Function::Builtin(f) => f.outline,
        }
    }

    /// The function's parameters and what it returns.
    pub fn outline(&self) -> (r: Arc<FunctionOutline>)
        ensures
            r == self.outline_spec(),
            r.view() == self.view().outline(),
    {
        match self {
            Function::Basic(f) => f.outline(),
            Function::Builtin(f) => f.outline(),
        }
    }

    /// Whether the function is a method: its first parameter is named `self`.
    pub fn wants_self(&self) -> (r: bool)
        ensures
            r == self.view().wants_self(),
    {
        match self {
            Function::Basic(f) => f.wants_self(),
            Function::Builtin(f) => f.wants_self(),
        }
    }
}

} // verus!
