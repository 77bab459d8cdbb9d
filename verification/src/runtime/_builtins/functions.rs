//! The built-in functions: `print`.

use vstd::prelude::*;
use crate::runtime::_builtins::{builtin, builtin_view, outline1};
use crate::runtime::scope::{Scope, ScopeView};
use crate::runtime::types::function::{FunctionView, Native, OutlineView};
use crate::runtime::types::{TypeView, Value, ValueType, ValueView};

verus! {

/// The function that writes its argument `value` out and returns nothing.
pub open spec fn print_view() -> FunctionView {
    builtin_view(OutlineView { inputs: seq![("value"@, TypeView::Any)], returns: None }, Native::Print)
}

/// The scope after `print` was declared.
pub open spec fn with_functions(s: ScopeView) -> ScopeView {
    s.declare("print"@, ValueView::Function(print_view()))
}

/// Declares the built-in functions.
pub fn default_impl(s: &mut Scope)
    ensures
        final(s).view() == with_functions(old(s).view()),
{
    s.declare("print", Value::Function(builtin(outline1("value", ValueType::Any, None), Native::Print)));
}

} // verus!
