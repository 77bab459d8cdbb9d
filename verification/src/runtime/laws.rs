//! Laws of the language: what holds of every value, scope and program.

use vstd::prelude::*;
use crate::errors::{runtime_error, ErrorKind, ErrorView};
use crate::project::joined;
use crate::runtime::lemma_block_stops;
use crate::runtime::_builtins::traits::{
    add_for_numbers, add_for_text, add_trait, index_for_text, indexable_trait, to_pretty_for_any,
    to_pretty_trait, to_string_for_any, to_string_trait, with_traits,
};
use crate::runtime::scope::{
    absorb_traits, first_named, with_fields, with_methods, lemma_trait_position, lemma_trait_position_is,
    lemma_trait_position_none, put_trait, trait_position, ScopeView, TraitEntryView,
};
use crate::runtime::semantics::{
    bind_args, blue_text, call, declare_spec, declared_mismatch_message, display, display_fields,
    dyadic_mismatch_message, eval, eval_args, eval_block, eval_chain, method_for, native, operate,
    pretty, pretty_field, pretty_fields, process_spec, returned, stops, unknown_index_message,
    variable, Arguments, Called, Evaluated, Link,
};
use crate::runtime::session::SessionView;
use crate::runtime::traits::TraitInstanceView;
use crate::runtime::types::function::{FunctionView, Native};
use crate::runtime::types::{TypeView, ValueView};
use crate::runtime::Host;
use crate::sitter::expr::{ContextualExpr, Expr};
use crate::sitter::op::Dyadic;
use crate::sitter::SpanView;

verus! {

/// Whether two values are of the same kind and shape: both numbers, both
/// text, both truth values, both the value of no value, struct instances of
/// the same shape, functions of the same outline, or modules of the same
/// name.
pub open spec fn same_shape(a: ValueView, b: ValueView) -> bool {
    match (a, b) {
        (ValueView::Number(_), ValueView::Number(_)) => true,
        (ValueView::String(_), ValueView::String(_)) => true,
        (ValueView::Boolean(_), ValueView::Boolean(_)) => true,
        (ValueView::Undefined, ValueView::Undefined) => true,
        (
            ValueView::StructInstance { types: x, .. },
            ValueView::StructInstance { types: y, .. },
        ) => x == y,
        (ValueView::Function(f), ValueView::Function(g)) => f.outline() == g.outline(),
        (ValueView::External(n, _), ValueView::External(m, _)) => n == m,
        _ => false,
    }
}

/// The type of a value is never `This`, `Any` or a trait, and it is the type
/// of the value without the marks of a return.
pub proof fn law_type_of_value(a: ValueView)
    ensures
        a.type_of().is_plain(),
        a.type_of() == a.unwrapped().type_of(),
        !(a.unwrapped() is Return),
    decreases a,
{
    match a {
        ValueView::Return(inner) => {
            law_type_of_value(*inner);
        },
        _ => {},
    }
}

/// The type of a value accepts exactly the values of that type, in every
/// scope.
pub proof fn law_own_type_matches(s: ScopeView, a: ValueView, b: ValueView)
    ensures
        s.matches(a.type_of(), b) == (a.type_of() == b.type_of()),
{
    law_type_of_value(a);
}

/// Two values have the same type exactly when, the marks of a return aside,
/// they are of the same kind and shape.
pub proof fn law_same_type(a: ValueView, b: ValueView)
    ensures
        (a.type_of() == b.type_of()) == same_shape(a.unwrapped(), b.unwrapped()),
{
    law_type_of_value(a);
    law_type_of_value(b);
}

/// The type of a value accepts another value exactly when the two are of the
/// same variant and, where they are struct instances, of the same shape. This
/// is stated of values that are neither functions nor modules nor marked as
/// returned: functions must also agree in their outlines, and modules in
/// their names.
pub proof fn law_matches_same_variant(s: ScopeView, a: ValueView, b: ValueView)
    requires
        !(a is Return) && !(a is Function) && !(a is External),
        !(b is Return),
    ensures
        s.matches(a.type_of(), b) == match (a, b) {
            (ValueView::Number(_), ValueView::Number(_)) => true,
            (ValueView::String(_), ValueView::String(_)) => true,
            (ValueView::Boolean(_), ValueView::Boolean(_)) => true,
            (ValueView::Undefined, ValueView::Undefined) => true,
            (
                ValueView::StructInstance { types: x, .. },
                ValueView::StructInstance { types: y, .. },
            ) => x == y,
            _ => false,
        },
{
    law_own_type_matches(s, a, b);
    law_same_type(a, b);
}

/// Every implementation among the first `n` that is chosen for a value
/// accepts the value.
pub proof fn lemma_instances_for(
    s: ScopeView,
    instances: Seq<TraitInstanceView>,
    n: nat,
    v: ValueView,
    i: int,
)
    requires
        0 <= i < s.instances_for(instances, n, v).len(),
    ensures
        s.matches(s.instances_for(instances, n, v)[i].restriction, v),
        exists|j: int| 0 <= j < n && j < instances.len() && #[trigger] instances[j] == s.instances_for(instances, n, v)[i],
    decreases n,
{
    if n == 0 || n > instances.len() {
    } else {
        let rest = s.instances_for(instances, (n - 1) as nat, v);
        if i < rest.len() {
            lemma_instances_for(s, instances, (n - 1) as nat, v, i);
            let j = choose|j: int| 0 <= j < n - 1 && j < instances.len() && #[trigger] instances[j] == rest[i];
            assert(instances[j] == s.instances_for(instances, n, v)[i]);
        } else {
            assert(instances[n - 1] == s.instances_for(instances, n, v)[i]);
        }
    }
}

/// Every implementation of the first `n` traits that is chosen for a value
/// accepts the value.
pub proof fn lemma_traits_for_upto(s: ScopeView, n: nat, v: ValueView, i: int)
    requires
        0 <= i < s.traits_for_upto(n, v).len(),
    ensures
        s.matches(s.traits_for_upto(n, v)[i].restriction, v),
    decreases n,
{
    if n == 0 || n > s.traits.len() {
    } else {
        let rest = s.traits_for_upto((n - 1) as nat, v);
        if i < rest.len() {
            lemma_traits_for_upto(s, (n - 1) as nat, v, i);
        } else {
            let entry = s.traits[n - 1];
            lemma_instances_for(s, entry.instances, entry.instances.len(), v, i - rest.len());
        }
    }
}

/// Dispatch keeps implementations apart: an implementation that is chosen
/// for a value accepts the value. So a call on a number never reaches an
/// implementation for text.
pub proof fn law_dispatch_respects_restriction(s: ScopeView, v: ValueView, name: Seq<char>)
    ensures
        forall|i: int|
            0 <= i < s.traits_for(v).len() ==> s.matches(
                (#[trigger] s.traits_for(v)[i]).restriction,
                v,
            ),
        s.trait_for(v, name) matches Some(inst) ==> s.matches(inst.restriction, v) && inst.def.name
            == name,
{
    assert forall|i: int| 0 <= i < s.traits_for(v).len() implies s.matches(
        (#[trigger] s.traits_for(v)[i]).restriction,
        v,
    ) by {
        lemma_traits_for_upto(s, s.traits.len(), v, i);
    }
    lemma_first_named(s.traits_for(v), name, 0);
}

/// The first implementation of a trait of a name is one of the
/// implementations, and of a trait of that name.
pub proof fn lemma_first_named(insts: Seq<TraitInstanceView>, name: Seq<char>, from: nat)
    ensures
        first_named(insts, name, from) matches Some(inst) ==> inst.def.name
            == name && exists|i: int| from <= i < insts.len() && #[trigger] insts[i] == inst,
    decreases insts.len() - from,
{
    if from >= insts.len() {
    } else if insts[from as int].def.name == name {
        assert(insts[from as int] == insts[from as int]);
    } else {
        lemma_first_named(insts, name, from + 1);
        match first_named(insts, name, from + 1) {
            Some(inst) => {
                let i = choose|i: int| from + 1 <= i < insts.len() && #[trigger] insts[i] == inst;
                assert(insts[i] == inst);
            },
            None => {},
        }
    }
}

/// No number is text: the type of text accepts no number, in any scope.
pub proof fn law_text_is_no_number(s: ScopeView, bits: u64)
    ensures
        !s.matches(TypeView::String, ValueView::Number(bits)),
        s.matches(TypeView::Number, ValueView::Number(bits)),
{
}

/// A declaration whose value is not of the declared type fails, and leaves
/// the scope as the evaluation of the value left it: nothing is bound.
pub proof fn law_declaration_mismatch<H: Host>(
    host: &H,
    node: ContextualExpr,
    s: ScopeView,
    p: Option<Seq<char>>,
    ses: SessionView,
    depth: nat,
)
    requires
        depth > 0,
        node.0 matches Expr::Declaration { ident, typed, expr } && typed is Some && ({
            let before = eval(host, *expr, s, p, ses, (depth - 1) as nat);
            &&& before.result matches Ok(Some(v)) && (before.scope.resolve_type(
                typed->Some_0@,
            ) matches Some(ty) && !before.scope.matches(ty, v.0))
        }),
    ensures
        node.0 matches Expr::Declaration { ident, typed, expr } && ({
            let before = eval(host, *expr, s, p, ses, (depth - 1) as nat);
            let after = eval(host, node, s, p, ses, depth);
            &&& after.result == Err::<Option<(ValueView, SpanView)>, ErrorView>(
                runtime_error(
                    ErrorKind::DeclaredTypeMismatch,
                    declared_mismatch_message(ident@, typed->Some_0@),
                    node.1.view(),
                ),
            )
            &&& after.scope == before.scope
            &&& after.session == before.session
        }),
{
    reveal(eval);
}

/// An assignment to a name that is not bound, or of a value whose type is not
/// that of the variable, fails and leaves the scope as the evaluation of the
/// value left it: no binding changes.
pub proof fn law_assignment_fails<H: Host>(
    host: &H,
    node: ContextualExpr,
    s: ScopeView,
    p: Option<Seq<char>>,
    ses: SessionView,
    depth: nat,
)
    requires
        depth > 0,
        node.0 is Assignment,
        eval(host, *node.0->Assignment_expr, s, p, ses, (depth - 1) as nat).result is Ok,
    ensures
        ({
            let ident = node.0->Assignment_ident@;
            let before = eval(host, *node.0->Assignment_expr, s, p, ses, (depth - 1) as nat);
            let after = eval(host, node, s, p, ses, depth);
            let v = match before.result->Ok_0 {
                Some(v) => v.0,
                None => ValueView::Undefined,
            };
            &&& !before.scope.variables.contains_key(ident) ==> after.result is Err
                && after.result->Err_0.kind == ErrorKind::UndefinedVariable && after.scope
                == before.scope
            &&& before.scope.variables.contains_key(ident) && !before.scope.matches(
                before.scope.variables[ident].type_of(),
                v,
            ) ==> after.result is Err && after.result->Err_0.kind == ErrorKind::TypeMismatch
                && after.scope == before.scope
        }),
{
    reveal(eval);
}

/// After an error, or a value marked as returned, a block evaluates nothing
/// more: its result, scope and run are those at that point.
pub proof fn law_block_stops<H: Host>(
    host: &H,
    nodes: Seq<ContextualExpr>,
    n: nat,
    s: ScopeView,
    p: Option<Seq<char>>,
    ses: SessionView,
    depth: nat,
)
    requires
        n <= nodes.len(),
        stops(eval_block(host, nodes, n, s, p, ses, depth).result),
    ensures
        eval_block(host, nodes, nodes.len(), s, p, ses, depth) == eval_block(
            host,
            nodes,
            n,
            s,
            p,
            ses,
            depth,
        ),
{
    lemma_block_stops(host, nodes, n, nodes.len(), s, p, ses, depth);
}

/// Absorbing a scope exposes every variable and struct of it as it is there,
/// and keeps what the absorbing scope has under other names.
pub proof fn law_absorb_exposes(s: ScopeView, src: ScopeView, name: Seq<char>)
    ensures
        src.variables.contains_key(name) ==> s.absorb(src).variables.contains_key(name)
            && s.absorb(src).variables[name] == src.variables[name],
        !src.variables.contains_key(name) && s.variables.contains_key(name) ==> s.absorb(
            src,
        ).variables.contains_key(name) && s.absorb(src).variables[name] == s.variables[name],
        src.structs.contains_key(name) ==> s.absorb(src).structs.contains_key(name) && s.absorb(
            src,
        ).structs[name] == src.structs[name],
{
}

/// Absorbing a scope twice binds every name as absorbing it once does.
pub proof fn law_absorb_twice(s: ScopeView, src: ScopeView)
    ensures
        s.absorb(src).absorb(src).variables == s.absorb(src).variables,
        s.absorb(src).absorb(src).structs == s.absorb(src).structs,
        s.absorb(src).absorb(src).for_var == s.absorb(src).for_var,
        s.absorb(src).absorb(src).export == s.absorb(src).export,
{
    assert(s.absorb(src).absorb(src).variables =~= s.absorb(src).variables);
    assert(s.absorb(src).absorb(src).structs =~= s.absorb(src).structs);
}

/// The trait that a name stands for among `traits`, with its
/// implementations.
pub open spec fn trait_named(traits: Seq<TraitEntryView>, name: Seq<char>) -> Option<TraitEntryView> {
    let i = trait_position(traits, name);
    if 0 <= i < traits.len() {
        Some(traits[i])
    } else {
        None
    }
}

/// Registering a trait makes its name stand for it and leaves the other
/// names alone.
pub proof fn lemma_put_trait_named(traits: Seq<TraitEntryView>, entry: TraitEntryView, name: Seq<char>)
    ensures
        trait_named(put_trait(traits, entry), name) == (if entry.def.name == name {
            Some(entry)
        } else {
            trait_named(traits, name)
        }),
{
    let after = put_trait(traits, entry);
    let i = trait_position(traits, entry.def.name);
    let j = trait_position(traits, name);
    lemma_trait_position(traits, entry.def.name);
    lemma_trait_position(traits, name);
    if 0 <= i < traits.len() {
        if entry.def.name == name {
            assert forall|k: int| i < k < after.len() implies (#[trigger] after[k]).def.name
                != name by {
                assert(after[k] == traits[k]);
            }
            lemma_trait_position_is(after, name, i);
        } else if j >= 0 {
            assert(after[j] == traits[j]);
            assert forall|k: int| j < k < after.len() implies (#[trigger] after[k]).def.name
                != name by {
                if k != i {
                    assert(after[k] == traits[k]);
                }
            }
            lemma_trait_position_is(after, name, j);
        } else {
            assert forall|k: int| 0 <= k < after.len() implies (#[trigger] after[k]).def.name
                != name by {
                if k != i {
                    assert(after[k] == traits[k]);
                }
            }
            lemma_trait_position_none(after, name);
        }
    } else {
        assert(after.drop_last() =~= traits);
        assert(after.last() == entry);
    }
}

/// The last of the first `n` traits that is named `name`.
pub open spec fn last_named(traits: Seq<TraitEntryView>, name: Seq<char>, n: nat) -> Option<
    TraitEntryView,
>
    decreases n,
{
    if n == 0 || n > traits.len() {
        None
    } else if traits[n - 1].def.name == name {
        Some(traits[n - 1])
    } else {
        last_named(traits, name, (n - 1) as nat)
    }
}

/// The trait that a name stands for is the last of that name.
pub proof fn lemma_last_named(traits: Seq<TraitEntryView>, name: Seq<char>)
    ensures
        last_named(traits, name, traits.len()) == trait_named(traits, name),
    decreases traits.len(),
{
    lemma_trait_position(traits, name);
    if traits.len() > 0 && traits.last().def.name != name {
        lemma_last_named(traits.drop_last(), name);
        lemma_last_named_prefix(traits, traits.drop_last(), name, (traits.len() - 1) as nat);
        lemma_trait_position(traits.drop_last(), name);
        if trait_position(traits.drop_last(), name) >= 0 {
            assert(traits.drop_last()[trait_position(traits.drop_last(), name)]
                == traits[trait_position(traits.drop_last(), name)]);
        }
    }
}

/// The last trait of a name among the first `n` depends on those alone.
pub proof fn lemma_last_named_prefix(a: Seq<TraitEntryView>, b: Seq<TraitEntryView>, name: Seq<char>, n: nat)
    requires
        n <= a.len(),
        n <= b.len(),
        forall|k: int| 0 <= k < n ==> #[trigger] a[k] == b[k],
    ensures
        last_named(a, name, n) == last_named(b, name, n),
    decreases n,
{
    if n > 0 {
        lemma_last_named_prefix(a, b, name, (n - 1) as nat);
    }
}

/// After the first `n` traits of `src` were absorbed, a name stands for the
/// last of them of that name, or for what it stood for before where none of
/// them has it.
pub proof fn lemma_absorb_traits(
    dst: Seq<TraitEntryView>,
    src: Seq<TraitEntryView>,
    n: nat,
    name: Seq<char>,
)
    requires
        n <= src.len(),
    ensures
        trait_named(absorb_traits(dst, src, n), name) == (match last_named(src, name, n) {
            Some(e) => Some(e),
            None => trait_named(dst, name),
        }),
    decreases n,
{
    if n > 0 {
        lemma_absorb_traits(dst, src, (n - 1) as nat, name);
        lemma_put_trait_named(absorb_traits(dst, src, (n - 1) as nat), src[n - 1], name);
    }
}

/// Absorbing a scope makes every trait of it known as it is there, and keeps
/// the traits that the absorbing scope has under other names. Absorbing it
/// twice leaves every trait's name standing for what it stands for after
/// absorbing it once.
pub proof fn law_absorb_traits(s: ScopeView, src: ScopeView, name: Seq<char>)
    ensures
        trait_named(s.absorb(src).traits, name) == (match trait_named(src.traits, name) {
            Some(e) => Some(e),
            None => trait_named(s.traits, name),
        }),
        trait_named(s.absorb(src).absorb(src).traits, name) == trait_named(
            s.absorb(src).traits,
            name,
        ),
{
    lemma_last_named(src.traits, name);
    lemma_absorb_traits(s.traits, src.traits, src.traits.len(), name);
    lemma_absorb_traits(s.absorb(src).traits, src.traits, src.traits.len(), name);
}

/// Declaring a variable changes no answer to the question whether a type
/// accepts a value: that depends on the traits and on the value that the
/// scope was made for.
pub proof fn law_matches_after_declare(
    s: ScopeView,
    name: Seq<char>,
    value: ValueView,
    ty: TypeView,
    v: ValueView,
)
    ensures
        s.declare(name, value).matches(ty, v) == s.matches(ty, v),
{
    lemma_matches_same_traits(s.declare(name, value), s, ty, v, s.traits.len());
}

/// Whether a type accepts a value is the same in two scopes with the same
/// traits, made for the same value.
pub proof fn lemma_matches_same_traits(a: ScopeView, b: ScopeView, ty: TypeView, v: ValueView, fuel: nat)
    requires
        a.traits == b.traits,
        a.for_var == b.for_var,
    ensures
        a.matches_at(ty, v, fuel) == b.matches_at(ty, v, fuel),
    decreases fuel, 0nat, 0nat,
{
    match ty {
        TypeView::Implements(name) => {
            if fuel > 0 {
                lemma_implements_same_traits(a, b, v, name, (fuel - 1) as nat);
            }
        },
        _ => {},
    }
}

/// Whether a trait is implemented for a value is the same in two scopes with
/// the same traits, made for the same value.
pub proof fn lemma_implements_same_traits(
    a: ScopeView,
    b: ScopeView,
    v: ValueView,
    name: Seq<char>,
    fuel: nat,
)
    requires
        a.traits == b.traits,
        a.for_var == b.for_var,
    ensures
        a.implements_at(v, name, fuel) == b.implements_at(v, name, fuel),
    decreases fuel, 3nat, 0nat,
{
    let i = trait_position(a.traits, name);
    if 0 <= i < a.traits.len() {
        lemma_any_same_traits(a, b, a.traits[i].instances, a.traits[i].instances.len(), v, fuel);
    }
}

/// Whether one of the first `n` implementations is for a value is the same in
/// two scopes with the same traits, made for the same value.
pub proof fn lemma_any_same_traits(
    a: ScopeView,
    b: ScopeView,
    instances: Seq<TraitInstanceView>,
    n: nat,
    v: ValueView,
    fuel: nat,
)
    requires
        a.traits == b.traits,
        a.for_var == b.for_var,
    ensures
        a.any_matches_at(instances, n, v, fuel) == b.any_matches_at(instances, n, v, fuel),
    decreases fuel, 2nat, n,
{
    if n == 0 || n > instances.len() {
    } else {
        let inst = instances[n - 1];
        match inst.def.restriction {
            Some(r) => {
                lemma_matches_same_traits(a, b, r, v, fuel);
            },
            None => {},
        }
        lemma_matches_same_traits(a, b, inst.restriction, v, fuel);
        assert(a.instance_matches_at(inst, v, fuel) == b.instance_matches_at(inst, v, fuel));
        lemma_any_same_traits(a, b, instances, (n - 1) as nat, v, fuel);
    }
}

/// The names of the built-in traits are four different names.
proof fn lemma_builtin_names()
    ensures
        "ToString"@ != "Add"@,
        "ToString"@ != "ToPretty"@,
        "ToString"@ != "Indexable"@,
        "Add"@ != "ToPretty"@,
        "Add"@ != "Indexable"@,
        "ToPretty"@ != "Indexable"@,
{
    reveal_strlit("ToString");
    reveal_strlit("Add");
    reveal_strlit("ToPretty");
    reveal_strlit("Indexable");
    assert("ToString"@.len() == 8);
    assert("Add"@.len() == 3);
    assert("ToPretty"@[2] == 'P');
    assert("ToString"@[2] == 'S');
    assert("Indexable"@.len() == 9);
}

/// The traits of a scope with nothing but the built-in traits: `ToString`,
/// `Add` with its two implementations, `ToPretty` and `Indexable`, in this
/// order.
pub proof fn lemma_builtin_traits()
    ensures
        with_traits(ScopeView::empty()).traits == seq![
            TraitEntryView { def: to_string_trait(), instances: seq![to_string_for_any()] },
            TraitEntryView {
                def: add_trait(),
                instances: seq![add_for_text(), add_for_numbers()],
            },
            TraitEntryView { def: to_pretty_trait(), instances: seq![to_pretty_for_any()] },
            TraitEntryView { def: indexable_trait(), instances: seq![index_for_text()] },
        ],
{
    lemma_builtin_names();
    let s0 = ScopeView::empty();
    let a = s0.declare_trait(to_string_trait());
    assert(trait_position(s0.traits, "ToString"@) == -1);
    assert(a.traits =~= seq![TraitEntryView { def: to_string_trait(), instances: Seq::empty() }]);
    lemma_trait_position_is(a.traits, "ToString"@, 0);
    let s1 = a.implement("ToString"@, to_string_for_any());
    assert(s1.traits =~= seq![
        TraitEntryView { def: to_string_trait(), instances: seq![to_string_for_any()] },
    ]);
    lemma_trait_position_none(s1.traits, "Add"@);
    let b = s1.declare_trait(add_trait());
    assert(b.traits =~= s1.traits.push(
        TraitEntryView { def: add_trait(), instances: Seq::empty() },
    ));
    lemma_trait_position_is(b.traits, "Add"@, 1);
    let c = b.implement("Add"@, add_for_text());
    assert(c.traits =~= s1.traits.push(
        TraitEntryView { def: add_trait(), instances: seq![add_for_text()] },
    ));
    lemma_trait_position_is(c.traits, "Add"@, 1);
    let s2 = c.implement("Add"@, add_for_numbers());
    assert(seq![add_for_text()].push(add_for_numbers()) =~= seq![
        add_for_text(),
        add_for_numbers(),
    ]);
    assert(c.traits[1].instances == seq![add_for_text()]);
    assert(s2.traits =~= s1.traits.push(
        TraitEntryView { def: add_trait(), instances: seq![add_for_text(), add_for_numbers()] },
    ));
    lemma_trait_position_none(s2.traits, "ToPretty"@);
    let d = s2.declare_trait(to_pretty_trait());
    assert(d.traits =~= s2.traits.push(
        TraitEntryView { def: to_pretty_trait(), instances: Seq::empty() },
    ));
    lemma_trait_position_is(d.traits, "ToPretty"@, 2);
    let s3 = d.implement("ToPretty"@, to_pretty_for_any());
    assert(s3.traits =~= s2.traits.push(
        TraitEntryView { def: to_pretty_trait(), instances: seq![to_pretty_for_any()] },
    ));
    lemma_trait_position_none(s3.traits, "Indexable"@);
    let e = s3.declare_trait(indexable_trait());
    assert(e.traits =~= s3.traits.push(
        TraitEntryView { def: indexable_trait(), instances: Seq::empty() },
    ));
    lemma_trait_position_is(e.traits, "Indexable"@, 3);
    let s4 = e.implement("Indexable"@, index_for_text());
    assert(s4.traits =~= s3.traits.push(
        TraitEntryView { def: indexable_trait(), instances: seq![index_for_text()] },
    ));
    assert(s4 == with_traits(s0));
}

/// In a scope with the built-in traits, the operator `+` on a number is the
/// addition of numbers, and on text the joining of text: the one never
/// reaches the other.
pub proof fn law_add_is_dispatched_by_type(s: ScopeView, bits: u64, text: Seq<char>)
    requires
        s.traits == with_traits(ScopeView::empty()).traits,
    ensures
        method_for(s, ValueView::Number(bits), "Add"@, "add"@) == Some(
            add_for_numbers().overrides["add"@],
        ),
        method_for(s, ValueView::String(text), "Add"@, "add"@) == Some(
            add_for_text().overrides["add"@],
        ),
        add_for_numbers().overrides["add"@] matches FunctionView::Builtin { handler, .. }
            && handler == Native::AddNumber,
        add_for_text().overrides["add"@] matches FunctionView::Builtin { handler, .. } && handler
            == Native::AddString,
{
    lemma_builtin_traits();
    lemma_builtin_names();
    reveal_with_fuel(ScopeView::traits_for_upto, 5);
    reveal_with_fuel(ScopeView::instances_for, 3);
    reveal_with_fuel(first_named, 4);
    let number = ValueView::Number(bits);
    let words = ValueView::String(text);
    assert(s.matches(TypeView::Any, number) && s.matches(TypeView::Any, words));
    assert(s.matches(TypeView::Number, number) && !s.matches(TypeView::Number, words));
    assert(!s.matches(TypeView::String, number) && s.matches(TypeView::String, words));
    assert(s.instances_for(s.traits[0].instances, 1, number) =~= seq![to_string_for_any()]);
    assert(s.instances_for(s.traits[1].instances, 2, number) =~= seq![add_for_numbers()]);
    assert(s.instances_for(s.traits[2].instances, 1, number) =~= seq![to_pretty_for_any()]);
    assert(s.instances_for(s.traits[3].instances, 1, number) =~= Seq::empty());
    assert(s.traits_for(number) =~= seq![
        to_string_for_any(),
        add_for_numbers(),
        to_pretty_for_any(),
    ]);
    assert(s.trait_for(number, "Add"@) == Some(add_for_numbers()));
    assert(s.instances_for(s.traits[0].instances, 1, words) =~= seq![to_string_for_any()]);
    assert(s.instances_for(s.traits[1].instances, 2, words) =~= seq![add_for_text()]);
    assert(s.instances_for(s.traits[2].instances, 1, words) =~= seq![to_pretty_for_any()]);
    assert(s.instances_for(s.traits[3].instances, 1, words) =~= seq![index_for_text()]);
    assert(s.traits_for(words) =~= seq![
        to_string_for_any(),
        add_for_text(),
        to_pretty_for_any(),
        index_for_text(),
    ]);
    assert(s.trait_for(words, "Add"@) == Some(add_for_text()));
}

/// A call of the built-in addition of numbers with two numbers gives the
/// number that the host's addition gives for them, from every scope.
pub proof fn lemma_addition_call<H: Host>(
    host: &H,
    left: (ValueView, SpanView),
    right: (ValueView, SpanView),
    s: ScopeView,
    ses: SessionView,
    depth: nat,
)
    requires
        left.0 is Number,
        right.0 is Number,
    ensures
        call(host, add_for_numbers().overrides["add"@], seq![left, right], s, ses, depth) == (Called {
            result: Ok(
                Some(
                    (
                        ValueView::Number(host.sum(left.0->Number_0, right.0->Number_0)),
                        SpanView::anonymous(),
                    ),
                ),
            ),
            session: ses,
        }),
{
    let a = left.0->Number_0;
    let b = right.0->Number_0;
    let f = add_for_numbers().overrides["add"@];
    let operands = seq![left, right];
    let child = s.child_for_var(ValueView::Function(f));
    assert(f.outline().inputs == seq![("left"@, TypeView::Number), ("right"@, TypeView::Number)]);
    let one = child.declare("left"@, ValueView::Number(a));
    let two = one.declare("right"@, ValueView::Number(b));
    assert(declare_spec(f, operands, s) == Ok::<ScopeView, ErrorView>(two)) by {
        reveal_with_fuel(bind_args, 3);
        assert(child.matches(TypeView::Number, ValueView::Number(a)));
        assert(bind_args(f, operands, s, 1) == Ok::<ScopeView, ErrorView>(one));
        assert(one.matches(TypeView::Number, ValueView::Number(b)));
        assert(bind_args(f, operands, s, 2) == Ok::<ScopeView, ErrorView>(two));
    }
    assert("left"@ != "right"@) by {
        reveal_strlit("left");
        reveal_strlit("right");
        assert("left"@.len() == 4);
        assert("right"@.len() == 5);
    }
    assert(variable(two, "left"@) == ValueView::Number(a));
    assert(variable(two, "right"@) == ValueView::Number(b));
    assert(native(host, Native::AddNumber, two, ses, depth) == (Called {
        result: Ok(Some((ValueView::Number(host.sum(a, b)), SpanView::anonymous()))),
        session: ses,
    })) by {
        reveal(native);
    }
    assert(call(host, f, operands, s, ses, depth) == native(
        host,
        Native::AddNumber,
        two,
        ses,
        depth,
    )) by {
        reveal(call);
        reveal(native);
    }
}

/// In a scope with the built-in traits, the operator `+` on two numbers
/// gives the number that the host's addition gives for them.
pub proof fn lemma_addition<H: Host>(
    host: &H,
    left: (ValueView, SpanView),
    right: (ValueView, SpanView),
    span: SpanView,
    s: ScopeView,
    ses: SessionView,
    depth: nat,
)
    requires
        s.traits == with_traits(ScopeView::empty()).traits,
        left.0 is Number,
        right.0 is Number,
    ensures
        operate(host, "Add"@, "add"@, seq![left, right], span, s, ses, depth) == (Evaluated {
            result: Ok(
                Some(
                    (
                        ValueView::Number(host.sum(left.0->Number_0, right.0->Number_0)),
                        SpanView::anonymous(),
                    ),
                ),
            ),
            scope: s,
            session: ses,
        }),
{
    law_add_is_dispatched_by_type(s, left.0->Number_0, Seq::empty());
    lemma_addition_call(host, left, right, s, ses, depth);
    let operands = seq![left, right];
    assert(operands[0].0 == ValueView::Number(left.0->Number_0));
    reveal(operate);
    reveal(call);
}

/// A number literal evaluates to its number, at its place.
pub proof fn lemma_number_literal<H: Host>(
    host: &H,
    node: ContextualExpr,
    s: ScopeView,
    p: Option<Seq<char>>,
    ses: SessionView,
    depth: nat,
)
    requires
        depth > 0,
        node.0 is Number,
    ensures
        eval(host, node, s, p, ses, depth) == (Evaluated {
            result: Ok(Some((ValueView::Number(node.0->Number_0), node.1.view()))),
            scope: s,
            session: ses,
        }),
{
    reveal(eval);
}

/// The meaning of an operator between two operands that have values of one
/// type is the meaning of the operator on those values.
pub proof fn lemma_dyadic<H: Host>(
    host: &H,
    node: ContextualExpr,
    s: ScopeView,
    p: Option<Seq<char>>,
    ses: SessionView,
    depth: nat,
)
    requires
        depth > 0,
        node.0 is DyadicOp,
        ({
            let l = eval(host, *node.0->DyadicOp_lhs, s, p, ses, (depth - 1) as nat);
            let r = eval(host, *node.0->DyadicOp_rhs, l.scope, p, l.session, (depth - 1) as nat);
            &&& l.result matches Ok(Some(left))
            &&& r.result matches Ok(Some(right))
            &&& r.scope.matches(l.result->Ok_0->Some_0.0.type_of(), r.result->Ok_0->Some_0.0)
        }),
    ensures
        ({
            let l = eval(host, *node.0->DyadicOp_lhs, s, p, ses, (depth - 1) as nat);
            let r = eval(host, *node.0->DyadicOp_rhs, l.scope, p, l.session, (depth - 1) as nat);
            eval(host, node, s, p, ses, depth) == operate(
                host,
                node.0->DyadicOp_verb.trait_name_spec(),
                node.0->DyadicOp_verb.method_name_spec(),
                seq![l.result->Ok_0->Some_0, r.result->Ok_0->Some_0],
                node.1.view(),
                r.scope,
                r.session,
                (depth - 1) as nat,
            )
        }),
{
    reveal(eval);
    reveal(operate);
}

/// In a scope with the built-in traits, the sum of two number literals is
/// the number that the host's addition gives for them, and evaluating it
/// changes neither the scope nor the run.
pub proof fn law_numbers_are_added<H: Host>(
    host: &H,
    node: ContextualExpr,
    s: ScopeView,
    p: Option<Seq<char>>,
    ses: SessionView,
    depth: nat,
)
    requires
        depth >= 2,
        s.traits == with_traits(ScopeView::empty()).traits,
        node.0 matches Expr::DyadicOp { verb, lhs, rhs } && verb == Dyadic::Add && lhs.0 is Number
            && rhs.0 is Number,
    ensures
        eval(host, node, s, p, ses, depth) == (Evaluated {
            result: Ok(
                Some(
                    (
                        ValueView::Number(
                            host.sum(
                                node.0->DyadicOp_lhs.0->Number_0,
                                node.0->DyadicOp_rhs.0->Number_0,
                            ),
                        ),
                        SpanView::anonymous(),
                    ),
                ),
            ),
            scope: s,
            session: ses,
        }),
{
    let lhs = *node.0->DyadicOp_lhs;
    let rhs = *node.0->DyadicOp_rhs;
    let d = (depth - 1) as nat;
    let left = (ValueView::Number(lhs.0->Number_0), lhs.1.view());
    let right = (ValueView::Number(rhs.0->Number_0), rhs.1.view());
    lemma_number_literal(host, lhs, s, p, ses, d);
    lemma_number_literal(host, rhs, s, p, ses, d);
    assert(s.matches(left.0.type_of(), right.0));
    lemma_dyadic(host, node, s, p, ses, depth);
    lemma_addition(host, left, right, node.1.view(), s, ses, d);
}

/// A text literal evaluates to its text, at its place.
pub proof fn lemma_text_literal<H: Host>(
    host: &H,
    node: ContextualExpr,
    s: ScopeView,
    p: Option<Seq<char>>,
    ses: SessionView,
    depth: nat,
)
    requires
        depth > 0,
        node.0 is String,
    ensures
        eval(host, node, s, p, ses, depth) == (Evaluated {
            result: Ok(Some((ValueView::String(node.0->String_0@), node.1.view()))),
            scope: s,
            session: ses,
        }),
{
    reveal(eval);
}

/// A call of the built-in joining of text with two texts gives the first
/// followed by the second, from every scope.
pub proof fn lemma_joining_call<H: Host>(
    host: &H,
    left: (ValueView, SpanView),
    right: (ValueView, SpanView),
    s: ScopeView,
    ses: SessionView,
    depth: nat,
)
    requires
        left.0 is String,
        right.0 is String,
    ensures
        call(host, add_for_text().overrides["add"@], seq![left, right], s, ses, depth) == (Called {
            result: Ok(
                Some(
                    (
                        ValueView::String(left.0->String_0 + right.0->String_0),
                        SpanView::anonymous(),
                    ),
                ),
            ),
            session: ses,
        }),
{
    let a = left.0->String_0;
    let b = right.0->String_0;
    let f = add_for_text().overrides["add"@];
    let operands = seq![left, right];
    let child = s.child_for_var(ValueView::Function(f));
    assert(f.outline().inputs == seq![("left"@, TypeView::String), ("right"@, TypeView::String)]);
    let one = child.declare("left"@, ValueView::String(a));
    let two = one.declare("right"@, ValueView::String(b));
    assert(declare_spec(f, operands, s) == Ok::<ScopeView, ErrorView>(two)) by {
        reveal_with_fuel(bind_args, 3);
        assert(child.matches(TypeView::String, ValueView::String(a)));
        assert(bind_args(f, operands, s, 1) == Ok::<ScopeView, ErrorView>(one));
        assert(one.matches(TypeView::String, ValueView::String(b)));
        assert(bind_args(f, operands, s, 2) == Ok::<ScopeView, ErrorView>(two));
    }
    assert("left"@ != "right"@) by {
        reveal_strlit("left");
        reveal_strlit("right");
        assert("left"@.len() == 4);
        assert("right"@.len() == 5);
    }
    assert(variable(two, "left"@) == ValueView::String(a));
    assert(variable(two, "right"@) == ValueView::String(b));
    assert(native(host, Native::AddString, two, ses, depth) == (Called {
        result: Ok(Some((ValueView::String(a + b), SpanView::anonymous()))),
        session: ses,
    })) by {
        reveal(native);
    }
    assert(call(host, f, operands, s, ses, depth) == native(
        host,
        Native::AddString,
        two,
        ses,
        depth,
    )) by {
        reveal(call);
        reveal(native);
    }
}

/// In a scope with the built-in traits, the sum of two text literals is the
/// first text followed by the second.
pub proof fn law_texts_are_joined<H: Host>(
    host: &H,
    node: ContextualExpr,
    s: ScopeView,
    p: Option<Seq<char>>,
    ses: SessionView,
    depth: nat,
)
    requires
        depth >= 2,
        s.traits == with_traits(ScopeView::empty()).traits,
        node.0 matches Expr::DyadicOp { verb, lhs, rhs } && verb == Dyadic::Add && lhs.0 is String
            && rhs.0 is String,
    ensures
        eval(host, node, s, p, ses, depth) == (Evaluated {
            result: Ok(
                Some(
                    (
                        ValueView::String(
                            node.0->DyadicOp_lhs.0->String_0@ + node.0->DyadicOp_rhs.0->String_0@,
                        ),
                        SpanView::anonymous(),
                    ),
                ),
            ),
            scope: s,
            session: ses,
        }),
{
    let lhs = *node.0->DyadicOp_lhs;
    let rhs = *node.0->DyadicOp_rhs;
    let d = (depth - 1) as nat;
    let left = (ValueView::String(lhs.0->String_0@), lhs.1.view());
    let right = (ValueView::String(rhs.0->String_0@), rhs.1.view());
    lemma_text_literal(host, lhs, s, p, ses, d);
    lemma_text_literal(host, rhs, s, p, ses, d);
    assert(s.matches(left.0.type_of(), right.0));
    lemma_dyadic(host, node, s, p, ses, depth);
    law_add_is_dispatched_by_type(s, 0, left.0->String_0);
    lemma_joining_call(host, left, right, s, ses, d);
    assert(seq![left, right][0].0 == ValueView::String(left.0->String_0));
    reveal(operate);
    reveal(call);
}

/// An operator between operands of different types fails as a mismatch of
/// types in every scope, whatever traits the scope knows: no trait is looked
/// up.
pub proof fn law_mixed_operands_fail<H: Host>(
    host: &H,
    node: ContextualExpr,
    s: ScopeView,
    p: Option<Seq<char>>,
    ses: SessionView,
    depth: nat,
)
    requires
        depth > 0,
        node.0 is DyadicOp,
        ({
            let l = eval(host, *node.0->DyadicOp_lhs, s, p, ses, (depth - 1) as nat);
            let r = eval(host, *node.0->DyadicOp_rhs, l.scope, p, l.session, (depth - 1) as nat);
            &&& l.result matches Ok(Some(left))
            &&& r.result matches Ok(Some(right))
            &&& l.result->Ok_0->Some_0.0.type_of() != r.result->Ok_0->Some_0.0.type_of()
        }),
    ensures
        eval(host, node, s, p, ses, depth).result == Err::<
            Option<(ValueView, SpanView)>,
            ErrorView,
        >(runtime_error(ErrorKind::DyadicTypeMismatch, dyadic_mismatch_message(), node.1.view())),
{
    let l = eval(host, *node.0->DyadicOp_lhs, s, p, ses, (depth - 1) as nat);
    let r = eval(host, *node.0->DyadicOp_rhs, l.scope, p, l.session, (depth - 1) as nat);
    law_own_type_matches(r.scope, l.result->Ok_0->Some_0.0, r.result->Ok_0->Some_0.0);
    reveal(eval);
}

/// A block that begins with a return evaluates nothing after it: its result
/// is the returned value with the mark of a return, and the scope and the
/// run are as the returned expression left them.
pub proof fn law_return_ends_block<H: Host>(
    host: &H,
    nodes: Seq<ContextualExpr>,
    s: ScopeView,
    p: Option<Seq<char>>,
    ses: SessionView,
    depth: nat,
)
    requires
        depth > 0,
        nodes.len() > 0,
        nodes[0].0 is Return,
        eval(host, *nodes[0].0->Return_0, s, p, ses, (depth - 1) as nat).result is Ok,
    ensures
        ({
            let inner = eval(host, *nodes[0].0->Return_0, s, p, ses, (depth - 1) as nat);
            let value = match inner.result->Ok_0 {
                Some(v) => v,
                None => (ValueView::Undefined, SpanView::anonymous()),
            };
            eval_block(host, nodes, nodes.len(), s, p, ses, depth) == (Evaluated {
                result: Ok(Some((ValueView::Return(Box::new(value.0)), value.1))),
                scope: inner.scope,
                session: inner.session,
            })
        }),
{
    let inner = eval(host, *nodes[0].0->Return_0, s, p, ses, (depth - 1) as nat);
    assert(eval(host, nodes[0], s, p, ses, depth).result is Ok && eval(
        host,
        nodes[0],
        s,
        p,
        ses,
        depth,
    ).scope == inner.scope && eval(host, nodes[0], s, p, ses, depth).session == inner.session
        && stops(eval(host, nodes[0], s, p, ses, depth).result)) by {
        reveal(eval);
    }
    assert(eval_block(host, nodes, 1, s, p, ses, depth) == eval(host, nodes[0], s, p, ses, depth))
        by {
        reveal_with_fuel(eval_block, 2);
        reveal(eval);
    }
    lemma_block_stops(host, nodes, 1, nodes.len(), s, p, ses, depth);
    reveal(eval);
}

/// The plain texts of the fields of a struct instance, each as its name, a
/// colon and the text of its value, in the order of the fields.
pub open spec fn display_entries<H: Host>(host: &H, fields: Seq<(Seq<char>, ValueView)>) -> Seq<
    Seq<char>,
> {
    Seq::new(fields.len(), |i: int| fields[i].0 + ": "@ + display(host, fields[i].1))
}

/// The text of the fields of a struct instance is the text of every field,
/// each once, in the order of the fields, with commas between.
pub proof fn law_display_lists_every_field<H: Host>(
    host: &H,
    fields: Seq<(Seq<char>, ValueView)>,
    n: nat,
)
    requires
        n <= fields.len(),
    ensures
        display_fields(host, fields, n) == joined(display_entries(host, fields), ", "@, n),
    decreases n,
{
    if n > 0 {
        law_display_lists_every_field(host, fields, (n - 1) as nat);
        let entries = display_entries(host, fields);
        assert(entries[n - 1] == fields[n - 1].0 + ": "@ + display(host, fields[n - 1].1));
        if n == 1 {
            assert(display_fields(host, fields, 0) == Seq::<char>::empty());
            assert(display_fields(host, fields, 1) =~= entries[0]);
        } else {
            assert(display_fields(host, fields, n) =~= joined(entries, ", "@, (n - 1) as nat)
                + ", "@ + entries[n - 1]);
        }
    }
}

/// Two struct instances with the same fields have the same texts of fields,
/// whatever the order of the fields.
pub proof fn law_entries_whatever_the_order<H: Host>(
    host: &H,
    a: Seq<(Seq<char>, ValueView)>,
    b: Seq<(Seq<char>, ValueView)>,
)
    requires
        forall|f: (Seq<char>, ValueView)| a.contains(f) <==> b.contains(f),
    ensures
        forall|e: Seq<char>|
            display_entries(host, a).contains(e) <==> display_entries(host, b).contains(e),
{
    assert forall|e: Seq<char>| display_entries(host, a).contains(e) implies display_entries(
        host,
        b,
    ).contains(e) by {
        lemma_entry_elsewhere(host, a, b, e);
    }
    assert forall|e: Seq<char>| display_entries(host, b).contains(e) implies display_entries(
        host,
        a,
    ).contains(e) by {
        lemma_entry_elsewhere(host, b, a, e);
    }
}

/// The text of a field of one list is the text of a field of every list that
/// holds the field.
pub proof fn lemma_entry_elsewhere<H: Host>(
    host: &H,
    a: Seq<(Seq<char>, ValueView)>,
    b: Seq<(Seq<char>, ValueView)>,
    e: Seq<char>,
)
    requires
        forall|f: (Seq<char>, ValueView)| a.contains(f) ==> b.contains(f),
        display_entries(host, a).contains(e),
    ensures
        display_entries(host, b).contains(e),
{
    let i = choose|i: int| 0 <= i < display_entries(host, a).len() && display_entries(host, a)[i] == e;
    assert(a.contains(a[i]));
    let j = choose|j: int| 0 <= j < b.len() && b[j] == a[i];
    assert(display_entries(host, b)[j] == e);
}

/// The coloured text of a struct instance, where it has one, is the name of
/// its struct and, between blue braces, the coloured text of its fields; and
/// the coloured text of fields, where they have one, is that of every field,
/// each once as its name, a colon and the coloured text of its value, in the
/// order of the fields, with commas between.
pub proof fn law_pretty_lists_every_field<H: Host>(
    host: &H,
    name: Seq<char>,
    types: Map<Seq<char>, TypeView>,
    fields: Seq<(Seq<char>, ValueView)>,
    s: ScopeView,
    ses: SessionView,
    depth: nat,
)
    requires
        pretty(host, ValueView::StructInstance { name, types, fields }, s, ses, depth).result is Ok,
    ensures
        pretty_fields(host, fields, fields.len(), s, ses, depth).result is Ok,
        pretty(host, ValueView::StructInstance { name, types, fields }, s, ses, depth).result->Ok_0
            == name + " "@ + blue_text("{"@) + " "@ + pretty_fields(
            host,
            fields,
            fields.len(),
            s,
            ses,
            depth,
        ).result->Ok_0 + " "@ + blue_text("}"@),
        pretty_fields(host, fields, fields.len(), s, ses, depth).result->Ok_0 == joined(
            pretty_entries(host, fields, s, ses, depth),
            ", "@,
            fields.len(),
        ),
{
    reveal(pretty);
    reveal(pretty_fields);
    lemma_pretty_entries(host, fields, fields.len(), s, ses, depth);
}

/// The coloured texts of the fields of a struct instance, each as its name,
/// a colon and the coloured text of its value, in the order of the fields:
/// each in the run that the fields before it have left.
pub open spec fn pretty_entries<H: Host>(
    host: &H,
    fields: Seq<(Seq<char>, ValueView)>,
    s: ScopeView,
    ses: SessionView,
    depth: nat,
) -> Seq<Seq<char>> {
    Seq::new(
        fields.len(),
        |i: int|
            fields[i].0 + ": "@ + (match pretty_field(
                host,
                fields[i].1,
                s,
                pretty_fields(host, fields, i as nat, s, ses, depth).session,
                depth,
            ).result {
                Ok(text) => text,
                Err(_) => Seq::empty(),
            }),
    )
}

/// The coloured text of the first `n` fields, where they have one, is their
/// coloured texts with commas between.
pub proof fn lemma_pretty_entries<H: Host>(
    host: &H,
    fields: Seq<(Seq<char>, ValueView)>,
    n: nat,
    s: ScopeView,
    ses: SessionView,
    depth: nat,
)
    requires
        n <= fields.len(),
        pretty_fields(host, fields, n, s, ses, depth).result is Ok,
    ensures
        pretty_fields(host, fields, n, s, ses, depth).result->Ok_0 == joined(
            pretty_entries(host, fields, s, ses, depth),
            ", "@,
            n,
        ),
    decreases n,
{
    reveal(pretty_fields);
    reveal(pretty_field);
    if n > 0 {
        let before = pretty_fields(host, fields, (n - 1) as nat, s, ses, depth);
        assert(before.result is Ok);
        lemma_pretty_entries(host, fields, (n - 1) as nat, s, ses, depth);
        let entries = pretty_entries(host, fields, s, ses, depth);
        let value = pretty_field(host, fields[n - 1].1, s, before.session, depth);
        assert(value.result is Ok);
        assert(entries[n - 1] == fields[n - 1].0 + ": "@ + value.result->Ok_0);
        let text = pretty_fields(host, fields, n, s, ses, depth).result->Ok_0;
        if n == 1 {
            assert(before.result->Ok_0 == Seq::<char>::empty());
            assert(text =~= entries[0]);
        } else {
            assert(text =~= joined(entries, ", "@, (n - 1) as nat) + ", "@ + entries[n - 1]);
        }
    }
}

/// The value of the field `x` of a struct instance: that of the last field
/// of that name.
pub open spec fn field_value(v: ValueView, x: Seq<char>) -> Option<ValueView> {
    let fields = with_fields(Map::empty(), v);
    if v is StructInstance && fields.contains_key(x) {
        Some(fields[x])
    } else {
        None
    }
}

/// Whether no implementation of a trait has a method named `x`.
pub open spec fn no_method_named(traits: Seq<TraitEntryView>, x: Seq<char>) -> bool {
    forall|a: int, b: int|
        0 <= a < traits.len() && 0 <= b < traits[a].instances.len() ==> (
        #[trigger] traits[a].instances[b]).get_function(x) is None
}

/// Whether an expression is `self.x`: an index chain from the name `self`
/// with the one step `x`.
pub open spec fn reads_field(e: ContextualExpr, x: Seq<char>) -> bool {
    &&& e.0 matches Expr::Index(target, chain)
    &&& target.0 matches Expr::Ident(name) && name@ == "self"@
    &&& chain@.len() == 1
    &&& chain@[0].0 matches Expr::Ident(step) && step@ == x
}

/// Whether a function is a method that returns the field `x` of its `self`:
/// its one parameter is `self`, of the type `ty`, and its body is
/// `return self.x`.
pub open spec fn returns_field(f: FunctionView, ty: TypeView, x: Seq<char>) -> bool {
    &&& f matches FunctionView::Basic { outline, body }
    &&& outline.inputs == seq![("self"@, ty)]
    &&& body@.len() == 1
    &&& body@[0].0 matches Expr::Return(inner) && reads_field(*inner, x)
}

/// Whether an expression is `p.m()`: an index chain from the name `p` with
/// the one step of a call of `m` without arguments.
pub open spec fn calls_method(e: ContextualExpr, p: Seq<char>, m: Seq<char>) -> bool {
    &&& e.0 matches Expr::Index(target, chain)
    &&& target.0 matches Expr::Ident(name) && name@ == p
    &&& chain@.len() == 1
    &&& chain@[0].0 matches Expr::FunctionCall(called, args) && called@ == m && args@.len() == 0
}

/// An implementation that is chosen for a value is one of the
/// implementations of one of the traits.
pub proof fn lemma_traits_for_origin(s: ScopeView, n: nat, v: ValueView, i: int)
    requires
        0 <= i < s.traits_for_upto(n, v).len(),
    ensures
        exists|a: int, b: int|
            0 <= a < s.traits.len() && 0 <= b < s.traits[a].instances.len() && (
            #[trigger] s.traits[a].instances[b]) == s.traits_for_upto(n, v)[i],
    decreases n,
{
    if n == 0 || n > s.traits.len() {
    } else {
        let rest = s.traits_for_upto((n - 1) as nat, v);
        if i < rest.len() {
            lemma_traits_for_origin(s, (n - 1) as nat, v, i);
            let (a, b) = choose|a: int, b: int|
                0 <= a < s.traits.len() && 0 <= b < s.traits[a].instances.len() && (
                #[trigger] s.traits[a].instances[b]) == rest[i];
            assert(s.traits[a].instances[b] == s.traits_for_upto(n, v)[i]);
        } else {
            let entry = s.traits[n - 1];
            let chosen = s.instances_for(entry.instances, entry.instances.len(), v);
            lemma_instances_for(s, entry.instances, entry.instances.len(), v, i - rest.len());
            let j = choose|j: int|
                0 <= j < entry.instances.len() && j < entry.instances.len()
                    && #[trigger] entry.instances[j] == chosen[i - rest.len()];
            assert(s.traits[n - 1].instances[j] == s.traits_for_upto(n, v)[i]);
        }
    }
}

/// Methods that are not named `x` leave the variable `x` as it is.
pub proof fn lemma_methods_keep(
    vars: Map<Seq<char>, ValueView>,
    insts: Seq<TraitInstanceView>,
    from: nat,
    x: Seq<char>,
)
    requires
        forall|i: int| 0 <= i < insts.len() ==> (#[trigger] insts[i]).get_function(x) is None,
    ensures
        with_methods(vars, insts, from).contains_key(x) == vars.contains_key(x),
        vars.contains_key(x) ==> with_methods(vars, insts, from)[x] == vars[x],
    decreases insts.len() - from,
{
    if from < insts.len() {
        lemma_methods_keep(vars, insts, from + 1, x);
        assert(insts[from as int].get_function(x) is None);
    }
}

/// In the scope made for a struct instance, a field's name stands for the
/// field's value, where no implementation has a method of that name.
pub proof fn law_field_is_bound(s: ScopeView, v: ValueView, x: Seq<char>)
    requires
        field_value(v, x) is Some,
        no_method_named(s.traits, x),
    ensures
        s.child_for_var(v).variables.contains_key(x),
        s.child_for_var(v).variables[x] == field_value(v, x)->Some_0,
        s.child_for_var(v).for_var == Some(v),
        s.child_for_var(v).traits == s.traits,
{
    let insts = s.traits_for(v);
    assert forall|i: int| 0 <= i < insts.len() implies (#[trigger] insts[i]).get_function(x)
        is None by {
        lemma_traits_for_origin(s, s.traits.len(), v, i);
        let (a, b) = choose|a: int, b: int|
            0 <= a < s.traits.len() && 0 <= b < s.traits[a].instances.len() && (
            #[trigger] s.traits[a].instances[b]) == insts[i];
        assert(s.traits[a].instances[b].get_function(x) is None);
    }
    lemma_methods_keep(with_fields(Map::empty(), v), insts, 0, x);
}

/// A name evaluates to what it is bound to, at the name's place.
pub proof fn lemma_name<H: Host>(
    host: &H,
    node: ContextualExpr,
    s: ScopeView,
    p: Option<Seq<char>>,
    ses: SessionView,
    depth: nat,
)
    requires
        depth > 0,
        node.0 is Ident,
    ensures
        eval(host, node, s, p, ses, depth) == (Evaluated {
            result: Ok(
                if s.variables.contains_key(node.0->Ident_0@) {
                    Some((s.variables[node.0->Ident_0@], node.1.view()))
                } else {
                    None
                },
            ),
            scope: s,
            session: ses,
        }),
{
    reveal(eval);
}

/// An index chain of one step from a name: the step is evaluated in the
/// scope made for what the name is bound to.
pub proof fn lemma_one_step<H: Host>(
    host: &H,
    node: ContextualExpr,
    s: ScopeView,
    p: Option<Seq<char>>,
    ses: SessionView,
    depth: nat,
)
    requires
        depth > 1,
        node.0 matches Expr::Index(target, chain) && target.0 is Ident && chain@.len() == 1
            && s.variables.contains_key(target.0->Ident_0@),
    ensures
        ({
            let v = s.variables[node.0->Index_0.0->Ident_0@];
            let step = eval(
                host,
                node.0->Index_1@[0],
                s.child_for_var(v),
                p,
                ses,
                (depth - 1) as nat,
            );
            eval(host, node, s, p, ses, depth) == (Evaluated {
                result: match step.result {
                    Ok(Some(found)) => Ok(Some(found)),
                    Ok(None) => Err(
                        runtime_error(
                            ErrorKind::UnknownIndex,
                            unknown_index_message(),
                            node.1.view(),
                        ),
                    ),
                    Err(error) => Err(error),
                },
                scope: s,
                session: step.session,
            })
        }),
{
    let target = *node.0->Index_0;
    let chain = node.0->Index_1@;
    let d = (depth - 1) as nat;
    let v = s.variables[target.0->Ident_0@];
    lemma_name(host, target, s, p, ses, d);
    let step = eval(host, chain[0], s.child_for_var(v), p, ses, d);
    assert(eval_chain(host, chain, 1, s, v, node.1.view(), p, ses, d) == (Link {
        result: match step.result {
            Ok(Some(found)) => Ok(found),
            Ok(None) => Err(
                runtime_error(ErrorKind::UnknownIndex, unknown_index_message(), node.1.view()),
            ),
            Err(error) => Err(error),
        },
        holder: match step.result {
            Ok(Some(found)) => found.0,
            _ => v,
        },
        session: step.session,
    })) by {
        reveal_with_fuel(eval_chain, 2);
        reveal(eval);
    }
    reveal(eval);
    reveal(eval_chain);
}

/// `self.x` evaluates to the value of the field `x` of what `self` is bound
/// to, at the place of `x`.
pub proof fn lemma_self_field<H: Host>(
    host: &H,
    node: ContextualExpr,
    x: Seq<char>,
    v: ValueView,
    s: ScopeView,
    p: Option<Seq<char>>,
    ses: SessionView,
    depth: nat,
)
    requires
        depth > 1,
        reads_field(node, x),
        s.variables.contains_key("self"@) && s.variables["self"@] == v,
        field_value(v, x) is Some,
        no_method_named(s.traits, x),
    ensures
        eval(host, node, s, p, ses, depth) == (Evaluated {
            result: Ok(Some((field_value(v, x)->Some_0, node.0->Index_1@[0].1.view()))),
            scope: s,
            session: ses,
        }),
{
    law_field_is_bound(s, v, x);
    lemma_one_step(host, node, s, p, ses, depth);
    lemma_name(host, node.0->Index_1@[0], s.child_for_var(v), p, ses, (depth - 1) as nat);
}

/// A return evaluates to the value of its expression, marked as returned.
pub proof fn lemma_return<H: Host>(
    host: &H,
    node: ContextualExpr,
    s: ScopeView,
    p: Option<Seq<char>>,
    ses: SessionView,
    depth: nat,
)
    requires
        depth > 0,
        node.0 is Return,
        eval(host, *node.0->Return_0, s, p, ses, (depth - 1) as nat).result matches Ok(Some(_)),
    ensures
        ({
            let inner = eval(host, *node.0->Return_0, s, p, ses, (depth - 1) as nat);
            let found = inner.result->Ok_0->Some_0;
            eval(host, node, s, p, ses, depth) == (Evaluated {
                result: Ok(Some((ValueView::Return(Box::new(found.0)), found.1))),
                scope: inner.scope,
                session: inner.session,
            })
        }),
{
    reveal(eval);
}

/// A body of one expression that has a value gives that value.
pub proof fn lemma_body_of_one<H: Host>(
    host: &H,
    body: Seq<ContextualExpr>,
    s: ScopeView,
    p: Option<Seq<char>>,
    ses: SessionView,
    depth: nat,
)
    requires
        body.len() == 1,
        eval(host, body[0], s, p, ses, depth).result matches Ok(Some(_)),
    ensures
        process_spec(host, body, s, p, ses, depth) == eval(host, body[0], s, p, ses, depth),
{
    assert(eval_block(host, body, 1, s, p, ses, depth) == eval(host, body[0], s, p, ses, depth))
        by {
        reveal_with_fuel(eval_block, 2);
        reveal(eval);
    }
    reveal(process_spec);
    reveal(eval_block);
}

/// A call of a function with a body, whose arguments can be bound, gives
/// what its body gives, without the mark of a return.
pub proof fn lemma_call_of_body<H: Host>(
    host: &H,
    f: FunctionView,
    args: Seq<(ValueView, SpanView)>,
    s: ScopeView,
    ses: SessionView,
    depth: nat,
)
    requires
        f is Basic,
        declare_spec(f, args, s) is Ok,
    ensures
        ({
            let body = process_spec(
                host,
                f->Basic_body@,
                declare_spec(f, args, s)->Ok_0,
                None,
                ses,
                depth,
            );
            call(host, f, args, s, ses, depth) == (Called {
                result: returned(body.result),
                session: body.session,
            })
        }),
{
    reveal(call);
    reveal(process_spec);
}

/// A call of a method without arguments, in a scope made for a value, is a
/// call of the method with that value as its one argument.
pub proof fn lemma_method_node<H: Host>(
    host: &H,
    node: ContextualExpr,
    f: FunctionView,
    s: ScopeView,
    p: Option<Seq<char>>,
    ses: SessionView,
    depth: nat,
)
    requires
        depth > 0,
        node.0 matches Expr::FunctionCall(name, args) && args@.len() == 0 && variable(s, name@)
            == ValueView::Function(f),
        f.wants_self(),
        s.for_var is Some,
    ensures
        ({
            let made = call(
                host,
                f,
                seq![(s.for_var->Some_0, SpanView::anonymous())],
                s,
                ses,
                (depth - 1) as nat,
            );
            eval(host, node, s, p, ses, depth) == (Evaluated {
                result: made.result,
                scope: s,
                session: made.session,
            })
        }),
{
    let args = node.0->FunctionCall_1@;
    let d = (depth - 1) as nat;
    assert(eval_args(host, args, 0, s, p, ses, d) == (Arguments {
        result: Ok(Seq::empty()),
        scope: s,
        session: ses,
    })) by {
        reveal(eval_args);
    }
    assert(seq![(s.for_var->Some_0, SpanView::anonymous())] + Seq::<
        (ValueView, SpanView),
    >::empty() =~= seq![(s.for_var->Some_0, SpanView::anonymous())]);
    reveal(eval);
    reveal(eval_args);
    reveal(call);
}

/// A call of a method that returns the field `x` of its `self`, with a
/// struct instance as `self`, gives the instance's own value of the field.
pub proof fn lemma_getter_call<H: Host>(
    host: &H,
    f: FunctionView,
    ty: TypeView,
    x: Seq<char>,
    v: ValueView,
    s: ScopeView,
    ses: SessionView,
    depth: nat,
)
    requires
        depth > 2,
        returns_field(f, ty, x),
        ty is Any || ty == v.type_of(),
        field_value(v, x) is Some,
        no_method_named(s.traits, x),
    ensures
        call(host, f, seq![(v, SpanView::anonymous())], s, ses, depth) == (Called {
            result: Ok(
                Some(
                    (
                        field_value(v, x)->Some_0,
                        f->Basic_body@[0].0->Return_0.0->Index_1@[0].1.view(),
                    ),
                ),
            ),
            session: ses,
        }),
{
    let args = seq![(v, SpanView::anonymous())];
    let child = s.child_for_var(ValueView::Function(f));
    let bound = child.declare("self"@, v);
    law_type_of_value(v);
    assert(child.matches(ty, v));
    assert(declare_spec(f, args, s) == Ok::<ScopeView, ErrorView>(bound)) by {
        reveal_with_fuel(bind_args, 2);
    }
    let body = f->Basic_body@;
    let inner = *body[0].0->Return_0;
    lemma_self_field(host, inner, x, v, bound, None, ses, (depth - 1) as nat);
    lemma_return(host, body[0], bound, None, ses, depth);
    lemma_body_of_one(host, body, bound, None, ses, depth);
    lemma_call_of_body(host, f, args, s, ses, depth);
}

/// A method called on a struct instance sees the instance as its `self`:
/// where `p` is bound to a struct instance and `m`, in the scope made for
/// the instance, is a method that returns `self.x`, `p.m()` evaluates to the
/// instance's own value of the field `x`, and changes neither the scope nor
/// the run.
pub proof fn law_method_reads_its_instance<H: Host>(
    host: &H,
    node: ContextualExpr,
    p: Seq<char>,
    m: Seq<char>,
    x: Seq<char>,
    f: FunctionView,
    ty: TypeView,
    s: ScopeView,
    module: Option<Seq<char>>,
    ses: SessionView,
    depth: nat,
)
    requires
        depth > 4,
        calls_method(node, p, m),
        s.variables.contains_key(p),
        field_value(s.variables[p], x) is Some,
        no_method_named(s.traits, x),
        variable(s.child_for_var(s.variables[p]), m) == ValueView::Function(f),
        returns_field(f, ty, x),
        ty is Any || ty == s.variables[p].type_of(),
    ensures
        eval(host, node, s, module, ses, depth) == (Evaluated {
            result: Ok(
                Some(
                    (
                        field_value(s.variables[p], x)->Some_0,
                        f->Basic_body@[0].0->Return_0.0->Index_1@[0].1.view(),
                    ),
                ),
            ),
            scope: s,
            session: ses,
        }),
{
    let v = s.variables[p];
    let held = s.child_for_var(v);
    let step = node.0->Index_1@[0];
    let d = (depth - 1) as nat;
    law_field_is_bound(s, v, x);
    lemma_one_step(host, node, s, module, ses, depth);
    lemma_getter_call(host, f, ty, x, v, held, ses, (d - 1) as nat);
    assert(f.wants_self());
    lemma_method_node(host, step, f, held, module, ses, d);
}

} // verus!
