//! The built-in objects: `term`, which prints, and `time`, which reads the
//! clock.

use vstd::prelude::*;
use std::sync::Arc;
use crate::assoc::{lemma_position, position};
use crate::runtime::_builtins::functions::print_view;
use crate::runtime::_builtins::{builtin, builtin_view, outline0, outline1};
use crate::runtime::scope::{Scope, ScopeView};
use crate::runtime::types::function::{Function, FunctionView, Native, OutlineView};
use crate::runtime::types::structs::{StructDefView, StructDefinition};
use crate::runtime::types::{fields_view, TypeView, Value, ValueType, ValueView};
use crate::text::share;

verus! {

/// The function that reads the clock.
pub open spec fn current_unix_view() -> FunctionView {
    builtin_view(
        OutlineView { inputs: Seq::empty(), returns: Some(Box::new(TypeView::Number)) },
        Native::CurrentUnix,
    )
}

/// The shape of an object with one method.
pub open spec fn object_types(method: Seq<char>, f: FunctionView) -> Map<Seq<char>, TypeView> {
    Map::<Seq<char>, TypeView>::empty().insert(method, TypeView::Function(Box::new(f.outline())))
}

/// An object with one method: an instance of a struct of its own name.
pub open spec fn object_view(name: Seq<char>, method: Seq<char>, f: FunctionView) -> ValueView {
    ValueView::StructInstance {
        name,
        types: object_types(method, f),
        fields: seq![(method, ValueView::Function(f))],
    }
}

/// The scope after an object with one method was defined and declared.
pub open spec fn with_object(s: ScopeView, name: Seq<char>, method: Seq<char>, f: FunctionView) -> ScopeView {
    s.define_struct(name, StructDefView { name, types: object_types(method, f) }).declare(
        name,
        object_view(name, method, f),
    )
}

/// The scope after the built-in objects were added: `term` with `println`,
/// and `time` with `current_unix`.
pub open spec fn with_objects(s: ScopeView) -> ScopeView {
    with_object(
        with_object(s, "term"@, "println"@, print_view()),
        "time"@,
        "current_unix"@,
        current_unix_view(),
    )
}

/// Defines a struct with one method and declares its one instance.
fn builtin_struct(s: &mut Scope, name: &str, method: &str, f: Arc<Function>)
    ensures
        final(s).view() == with_object(old(s).view(), name@, method@, f.view()),
{
    let mut types: Vec<(String, ValueType)> = Vec::new();
    types.push((method.to_owned(), ValueType::Function(f.outline())));
    let def = StructDefinition { name: name.to_owned(), fields: types };
    proof {
        assert forall|k: Seq<char>| position(def.fields@, k) == (if k == method@ {
            0int
        } else {
            -1
        }) by {
            lemma_position(def.fields@, k);
        }
        assert(def.field_types() =~= object_types(method@, f.view()));
    }
    let mut fields: Vec<(String, Value)> = Vec::new();
    fields.push((method.to_owned(), Value::Function(share(&f))));
    proof {
        assert(fields_view(fields@) =~= seq![(method@, ValueView::Function(f.view()))]);
    }
    s.define_struct(name, def);
    match s.get_structdef(name) {
        Some(shared) => {
            s.declare(name, Value::StructInstance(shared, Arc::new(fields)));
        },
        None => {
            assert(false);
        },
    }
}

/// Adds the built-in objects.
pub fn default_impl(s: &mut Scope)
    ensures
        final(s).view() == with_objects(old(s).view()),
{
    builtin_struct(s, "term", "println", builtin(outline1("value", ValueType::Any, None), Native::Print));
    builtin_struct(
        s,
        "time",
        "current_unix",
        builtin(outline0(Some(ValueType::Number)), Native::CurrentUnix),
    );
}

} // verus!
