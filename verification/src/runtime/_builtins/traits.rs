//! The built-in traits and their implementations: `ToString`, `Add`,
//! `ToPretty` and `Indexable`.

use vstd::prelude::*;
use std::sync::Arc;
use crate::runtime::_builtins::{
    builtin, builtin_view, no_functions, one_function, one_outline, outline1, outline2,
};
use crate::runtime::scope::{
    lemma_put_trait_known, lemma_trait_position, lemma_trait_position_is, trait_position, Scope,
    ScopeView, TraitEntryView,
};
use crate::runtime::traits::{TraitDefView, TraitDefinition, TraitInstanceView};
use crate::runtime::types::function::{FunctionOutline, FunctionView, Native, OutlineView};
use crate::runtime::types::{TypeView, ValueType};

verus! {

/// A trait with one method and no defaults, open to every value.
pub open spec fn trait_view(name: Seq<char>, method: Seq<char>, outline: OutlineView) -> TraitDefView {
    TraitDefView {
        name,
        outlines: Map::<Seq<char>, OutlineView>::empty().insert(method, outline),
        functions: Map::empty(),
        restriction: None,
    }
}

/// An implementation of `def` by one built-in.
pub open spec fn instance_view(
    def: TraitDefView,
    method: Seq<char>,
    outline: OutlineView,
    handler: Native,
    restriction: TypeView,
) -> TraitInstanceView {
    TraitInstanceView {
        def,
        overrides: Map::<Seq<char>, FunctionView>::empty().insert(
            method,
            builtin_view(outline, handler),
        ),
        restriction,
    }
}

/// The outline of a method of one parameter.
pub open spec fn unary(name: Seq<char>, ty: TypeView, result: TypeView) -> OutlineView {
    OutlineView { inputs: seq![(name, ty)], returns: Some(Box::new(result)) }
}

/// The outline of a method of two parameters.
pub open spec fn binary(
    first: Seq<char>,
    first_type: TypeView,
    second: Seq<char>,
    second_type: TypeView,
    result: TypeView,
) -> OutlineView {
    OutlineView {
        inputs: seq![(first, first_type), (second, second_type)],
        returns: Some(Box::new(result)),
    }
}

/// `ToString`: `to_string` makes text of a value.
pub open spec fn to_string_trait() -> TraitDefView {
    trait_view("ToString"@, "to_string"@, unary("self"@, TypeView::This, TypeView::String))
}

/// `ToPretty`: `to_pretty` makes coloured text of a value.
pub open spec fn to_pretty_trait() -> TraitDefView {
    trait_view("ToPretty"@, "to_pretty"@, unary("self"@, TypeView::This, TypeView::String))
}

/// `Add`: `add` is the operator `+`.
pub open spec fn add_trait() -> TraitDefView {
    trait_view(
        "Add"@,
        "add"@,
        binary("left"@, TypeView::This, "right"@, TypeView::This, TypeView::Any),
    )
}

/// `Indexable`: `index` takes a part of a value.
pub open spec fn indexable_trait() -> TraitDefView {
    trait_view(
        "Indexable"@,
        "index"@,
        binary("self"@, TypeView::This, "index"@, TypeView::Number, TypeView::Any),
    )
}

/// The scope after the trait `def` was declared and implemented once.
pub open spec fn with_trait(s: ScopeView, def: TraitDefView, inst: TraitInstanceView) -> ScopeView {
    s.declare_trait(def).implement(def.name, inst)
}

/// `ToString` for every value.
pub open spec fn to_string_for_any() -> TraitInstanceView {
    instance_view(
        to_string_trait(),
        "to_string"@,
        unary("self"@, TypeView::Any, TypeView::String),
        Native::ToString,
        TypeView::Any,
    )
}

/// `Add` for text.
pub open spec fn add_for_text() -> TraitInstanceView {
    instance_view(
        add_trait(),
        "add"@,
        binary("left"@, TypeView::String, "right"@, TypeView::String, TypeView::String),
        Native::AddString,
        TypeView::String,
    )
}

/// `Add` for numbers.
pub open spec fn add_for_numbers() -> TraitInstanceView {
    instance_view(
        add_trait(),
        "add"@,
        binary("left"@, TypeView::Number, "right"@, TypeView::Number, TypeView::Number),
        Native::AddNumber,
        TypeView::Number,
    )
}

/// `ToPretty` for every value.
pub open spec fn to_pretty_for_any() -> TraitInstanceView {
    instance_view(
        to_pretty_trait(),
        "to_pretty"@,
        unary("self"@, TypeView::Any, TypeView::String),
        Native::ToPretty,
        TypeView::Any,
    )
}

/// `Indexable` for text.
pub open spec fn index_for_text() -> TraitInstanceView {
    instance_view(
        indexable_trait(),
        "index"@,
        binary("self"@, TypeView::String, "index"@, TypeView::Number, TypeView::Any),
        Native::IndexString,
        TypeView::String,
    )
}

/// The scope after the built-in traits were declared and implemented:
/// `ToString` for every value, `Add` for text and then for numbers,
/// `ToPretty` for every value, `Indexable` for text.
pub open spec fn with_traits(s: ScopeView) -> ScopeView {
    let s1 = with_trait(s, to_string_trait(), to_string_for_any());
    let s2 = with_trait(s1, add_trait(), add_for_text()).implement("Add"@, add_for_numbers());
    let s3 = with_trait(s2, to_pretty_trait(), to_pretty_for_any());
    with_trait(s3, indexable_trait(), index_for_text())
}

/// A trait, once declared, is known by its name in the scope.
pub proof fn lemma_declared(s: ScopeView, def: TraitDefView)
    ensures
        0 <= trait_position(s.declare_trait(def).traits, def.name) < s.declare_trait(
            def,
        ).traits.len(),
        s.declare_trait(def).traits[trait_position(s.declare_trait(def).traits, def.name)].def == def,
{
    lemma_put_trait_known(s.traits, TraitEntryView { def, instances: Seq::empty() });
}

/// A trait stays known by its name when it is implemented.
pub proof fn lemma_implemented(s: ScopeView, name: Seq<char>, inst: TraitInstanceView)
    requires
        0 <= trait_position(s.traits, name) < s.traits.len(),
    ensures
        trait_position(s.implement(name, inst).traits, name) == trait_position(s.traits, name),
        s.implement(name, inst).traits.len() == s.traits.len(),
        s.implement(name, inst).traits[trait_position(s.traits, name)].def
            == s.traits[trait_position(s.traits, name)].def,
{
    let i = trait_position(s.traits, name);
    lemma_trait_position(s.traits, name);
    let after = s.implement(name, inst).traits;
    assert forall|j: int| i < j < after.len() implies (#[trigger] after[j]).def.name != name by {
        assert(after[j] == s.traits[j]);
    }
    lemma_trait_position_is(after, name, i);
}

/// Declares a trait with one method and implements it by one built-in.
fn add_trait_with(
    s: &mut Scope,
    name: &str,
    method: &str,
    outline: FunctionOutline,
) -> (def: Ghost<TraitDefView>)
    ensures
        def@ == trait_view(name@, method@, outline.view()),
        final(s).view() == old(s).view().declare_trait(def@),
{
    let def = TraitDefinition {
        name: name.to_owned(),
        outlines: one_outline(method, outline),
        functions: no_functions(),
        restriction: None,
    };
    let shared = Arc::new(def);
    s.declare_trait(&shared);
    Ghost(shared.view())
}

/// Implements a declared trait by one built-in.
fn implement_with(
    s: &mut Scope,
    def: Ghost<TraitDefView>,
    name: &str,
    method: &str,
    outline: FunctionOutline,
    handler: Native,
    restriction: ValueType,
)
    requires
        def@.name == name@,
        0 <= trait_position(old(s).view().traits, name@) < old(s).view().traits.len(),
        old(s).view().traits[trait_position(old(s).view().traits, name@)].def == def@,
    ensures
        final(s).view() == old(s).view().implement(
            name@,
            instance_view(def@, method@, outline.view(), handler, restriction.view()),
        ),
{
    let overrides = one_function(method, builtin(outline, handler));
    match s.implement(name, overrides, restriction) {
        Ok(_) => {},
        Err(_) => {},
    }
}

/// Declares and implements the built-in traits.
pub fn default_impl(s: &mut Scope)
    ensures
        final(s).view() == with_traits(old(s).view()),
{
    let ghost s0 = s.view();
    let def = add_trait_with(
        s,
        "ToString",
        "to_string",
        outline1("self", ValueType::This, Some(ValueType::String)),
    );
    proof {
        lemma_declared(s0, def@);
    }
    implement_with(
        s,
        def,
        "ToString",
        "to_string",
        outline1("self", ValueType::Any, Some(ValueType::String)),
        Native::ToString,
        ValueType::Any,
    );
    let ghost s1 = s.view();
    let def = add_trait_with(
        s,
        "Add",
        "add",
        outline2("left", ValueType::This, "right", ValueType::This, Some(ValueType::Any)),
    );
    proof {
        lemma_declared(s1, def@);
    }
    let ghost s1a = s.view();
    implement_with(
        s,
        def,
        "Add",
        "add",
        outline2("left", ValueType::String, "right", ValueType::String, Some(ValueType::String)),
        Native::AddString,
        ValueType::String,
    );
    proof {
        lemma_implemented(
            s1a,
            "Add"@,
            instance_view(
                def@,
                "add"@,
                binary("left"@, TypeView::String, "right"@, TypeView::String, TypeView::String),
                Native::AddString,
                TypeView::String,
            ),
        );
    }
    implement_with(
        s,
        def,
        "Add",
        "add",
        outline2("left", ValueType::Number, "right", ValueType::Number, Some(ValueType::Number)),
        Native::AddNumber,
        ValueType::Number,
    );
    let ghost s2 = s.view();
    let def = add_trait_with(
        s,
        "ToPretty",
        "to_pretty",
        outline1("self", ValueType::This, Some(ValueType::String)),
    );
    proof {
        lemma_declared(s2, def@);
    }
    implement_with(
        s,
        def,
        "ToPretty",
        "to_pretty",
        outline1("self", ValueType::Any, Some(ValueType::String)),
        Native::ToPretty,
        ValueType::Any,
    );
    let ghost s3 = s.view();
    let def = add_trait_with(
        s,
        "Indexable",
        "index",
        outline2("self", ValueType::This, "index", ValueType::Number, Some(ValueType::Any)),
    );
    proof {
        lemma_declared(s3, def@);
    }
    implement_with(
        s,
        def,
        "Indexable",
        "index",
        outline2("self", ValueType::String, "index", ValueType::Number, Some(ValueType::Any)),
        Native::IndexString,
        ValueType::String,
    );
}

} // verus!
