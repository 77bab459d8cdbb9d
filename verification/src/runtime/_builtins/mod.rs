//! The built-ins that every program starts with.

use vstd::prelude::*;
use std::sync::Arc;
use crate::assoc::{lemma_position, position};
use crate::runtime::scope::{Scope, ScopeView};
use crate::runtime::traits::{functions_map, outlines_map};
use crate::runtime::types::function::{
    BuiltinFunction, Function, FunctionOutline, FunctionView, Native, OutlineView,
};
use crate::runtime::types::{TypeView, ValueType};

pub mod functions;
pub mod objects;
pub mod traits;

verus! {

/// The scope after the built-ins were added to it: the traits with their
/// implementations, then the functions, then the objects.
pub open spec fn seeded(s: ScopeView) -> ScopeView {
    objects::with_objects(functions::with_functions(traits::with_traits(s)))
}

/// Adds the built-ins to the scope.
pub fn default_impl(s: &mut Scope)
    ensures
        final(s).view() == seeded(old(s).view()),
{
    traits::default_impl(s);
    functions::default_impl(s);
    objects::default_impl(s);
}

/// The type that an outline returns, boxed.
pub open spec fn boxed(t: Option<TypeView>) -> Option<Box<TypeView>> {
    match t {
        Some(t) => Some(Box::new(t)),
        None => None,
    }
}

/// The view of an optional type.
pub open spec fn type_of_option(t: Option<ValueType>) -> Option<TypeView> {
    match t {
        Some(t) => Some(t.view()),
        None => None,
    }
}

/// The built-in `handler` with the outline `outline`.
pub open spec fn builtin_view(outline: OutlineView, handler: Native) -> FunctionView {
    FunctionView::Builtin { outline, handler }
}

/// An outline without parameters.
pub(crate) fn outline0(result: Option<ValueType>) -> (r: FunctionOutline)
    ensures
        r.view() == (OutlineView { inputs: Seq::empty(), returns: boxed(type_of_option(result)) }),
{
    let r = FunctionOutline { inputs: Vec::new(), returns: result };
    assert(r.view().inputs =~= Seq::empty());
    r
}

/// An outline with one parameter.
pub(crate) fn outline1(name: &str, ty: ValueType, result: Option<ValueType>) -> (r: FunctionOutline)
    ensures
        r.view() == (OutlineView {
            inputs: seq![(name@, ty.view())],
            returns: boxed(type_of_option(result)),
        }),
{
    let mut inputs: Vec<(String, ValueType)> = Vec::new();
    inputs.push((name.to_owned(), ty));
    let r = FunctionOutline { inputs, returns: result };
    assert(r.view().inputs =~= seq![(name@, ty.view())]);
    r
}

/// An outline with two parameters.
pub(crate) fn outline2(
    first: &str,
    first_type: ValueType,
    second: &str,
    second_type: ValueType,
    result: Option<ValueType>,
) -> (r: FunctionOutline)
    ensures
        r.view() == (OutlineView {
            inputs: seq![(first@, first_type.view()), (second@, second_type.view())],
            returns: boxed(type_of_option(result)),
        }),
{
    let mut inputs: Vec<(String, ValueType)> = Vec::new();
    inputs.push((first.to_owned(), first_type));
    inputs.push((second.to_owned(), second_type));
    let r = FunctionOutline { inputs, returns: result };
    assert(r.view().inputs =~= seq![(first@, first_type.view()), (second@, second_type.view())]);
    r
}

/// The built-in `handler` with the outline `outline`, as a shared function.
pub(crate) fn builtin(outline: FunctionOutline, handler: Native) -> (r: Arc<Function>)
    ensures
        r.view() == builtin_view(outline.view(), handler),
{
    BuiltinFunction { outline: Arc::new(outline), handler }.packaged()
}

/// One function under one name.
pub(crate) fn one_function(name: &str, f: Arc<Function>) -> (r: Vec<(String, Arc<Function>)>)
    ensures
        functions_map(r@) == Map::<Seq<char>, FunctionView>::empty().insert(name@, f.view()),
{
    let mut r: Vec<(String, Arc<Function>)> = Vec::new();
    r.push((name.to_owned(), f));
    proof {
        assert forall|k: Seq<char>| position(r@, k) == (if k == name@ {
            0int
        } else {
            -1
        }) by {
            lemma_position(r@, k);
        }
        assert(functions_map(r@) =~= Map::<Seq<char>, FunctionView>::empty().insert(
            name@,
            f.view(),
        ));
    }
    r
}

/// One outline under one name.
pub(crate) fn one_outline(name: &str, outline: FunctionOutline) -> (r: Vec<(String, FunctionOutline)>)
    ensures
        outlines_map(r@) == Map::<Seq<char>, OutlineView>::empty().insert(name@, outline.view()),
{
    let mut r: Vec<(String, FunctionOutline)> = Vec::new();
    r.push((name.to_owned(), outline));
    proof {
        assert forall|k: Seq<char>| position(r@, k) == (if k == name@ {
            0int
        } else {
            -1
        }) by {
            lemma_position(r@, k);
        }
        assert(outlines_map(r@) =~= Map::<Seq<char>, OutlineView>::empty().insert(
            name@,
            outline.view(),
        ));
    }
    r
}

/// No functions.
pub(crate) fn no_functions() -> (r: Vec<(String, Arc<Function>)>)
    ensures
        functions_map(r@) == Map::<Seq<char>, FunctionView>::empty(),
{
    let r: Vec<(String, Arc<Function>)> = Vec::new();
    proof {
        assert forall|k: Seq<char>| position(r@, k) == -1 by {
            lemma_position(r@, k);
        }
        assert(functions_map(r@) =~= Map::<Seq<char>, FunctionView>::empty());
    }
    r
}

} // verus!
