//! Scopes: what names stand for.

use vstd::prelude::*;
use vstd::string::*;
use std::sync::Arc;
use crate::assoc::{
    bound, copy_entries, find, lemma_entry_bound, lemma_position, lemma_prefix_push, lookup,
    position, put,
};
use crate::errors::{anonymous_error, Error, ErrorKind, ErrorView};
use crate::runtime::traits::{
    functions_map, TraitDefView, TraitDefinition, TraitInstance, TraitInstanceView,
};
use crate::runtime::native::label_of;
use crate::runtime::semantics::type_label;
use crate::runtime::types::function::Function;
use crate::runtime::types::structs::{StructDefView, StructDefinition};
use crate::runtime::types::{fields_view, TypeView, Value, ValueType, ValueView};
use crate::text::{has_prefix, join3, same_text, share};

verus! {

/// The bindings in force at one point of a program: traits with their
/// implementations in the order in which they were registered, variables,
/// struct definitions, the value the scope was made for, and the scope that
/// every declaration is repeated in.
#[derive(Debug)]
pub struct Scope {
    traits: Vec<(Arc<TraitDefinition>, Vec<Arc<TraitInstance>>)>,
    variables: Vec<(String, Arc<Value>)>,
    structs: Vec<(String, Arc<StructDefinition>)>,
    for_var: Option<Arc<Value>>,
    export: Option<Box<Scope>>,
}

/// A trait of a scope with its implementations, oldest first.
pub ghost struct TraitEntryView {
    pub def: TraitDefView,
    pub instances: Seq<TraitInstanceView>,
}

/// A scope as a mathematical value.
pub ghost struct ScopeView {
    pub traits: Seq<TraitEntryView>,
    pub variables: Map<Seq<char>, ValueView>,
    pub structs: Map<Seq<char>, StructDefView>,
    pub for_var: Option<ValueView>,
    pub export: Option<Box<ScopeView>>,
}

/// The index of the last trait named `name`, or -1 where there is none.
pub open spec fn trait_position(traits: Seq<TraitEntryView>, name: Seq<char>) -> int
    decreases traits.len(),
{
    if traits.len() == 0 {
        -1
    } else if traits.last().def.name == name {
        traits.len() - 1
    } else {
        trait_position(traits.drop_last(), name)
    }
}

/// `trait_position` is an index of a trait named `name` with no such trait
/// after it, or -1 where no trait has that name.
pub proof fn lemma_trait_position(traits: Seq<TraitEntryView>, name: Seq<char>)
    ensures
        -1 <= trait_position(traits, name) < traits.len(),
        trait_position(traits, name) >= 0 ==> traits[trait_position(traits, name)].def.name == name,
        forall|j: int|
            trait_position(traits, name) < j < traits.len() ==> (#[trigger] traits[j]).def.name
                != name,
    decreases traits.len(),
{
    if traits.len() > 0 && traits.last().def.name != name {
        lemma_trait_position(traits.drop_last(), name);
        assert forall|j: int| trait_position(traits, name) < j < traits.len() implies (
        #[trigger] traits[j]).def.name != name by {
            if j < traits.len() - 1 {
                assert(traits[j] == traits.drop_last()[j]);
            }
        }
    }
}

/// The last trait named `name` is at `trait_position`.
pub proof fn lemma_trait_position_is(traits: Seq<TraitEntryView>, name: Seq<char>, i: int)
    requires
        0 <= i < traits.len(),
        traits[i].def.name == name,
        forall|j: int| i < j < traits.len() ==> (#[trigger] traits[j]).def.name != name,
    ensures
        trait_position(traits, name) == i,
    decreases traits.len(),
{
    if i < traits.len() - 1 {
        assert(traits.last() == traits[traits.len() - 1]);
        assert(traits.drop_last()[i] == traits[i]);
        assert forall|j: int| i < j < traits.drop_last().len() implies (
        #[trigger] traits.drop_last()[j]).def.name != name by {
            assert(traits.drop_last()[j] == traits[j]);
        }
        lemma_trait_position_is(traits.drop_last(), name, i);
    }
}

/// Where no trait is named `name`, `trait_position` is -1.
pub proof fn lemma_trait_position_none(traits: Seq<TraitEntryView>, name: Seq<char>)
    requires
        forall|j: int| 0 <= j < traits.len() ==> (#[trigger] traits[j]).def.name != name,
    ensures
        trait_position(traits, name) == -1,
    decreases traits.len(),
{
    if traits.len() > 0 {
        assert(traits.last() == traits[traits.len() - 1]);
        assert forall|j: int| 0 <= j < traits.drop_last().len() implies (
        #[trigger] traits.drop_last()[j]).def.name != name by {
            assert(traits.drop_last()[j] == traits[j]);
        }
        lemma_trait_position_none(traits.drop_last(), name);
    }
}

/// The traits after `entry` was registered: in the place of a trait of the
/// same name where there is one, after the others where there is none.
pub open spec fn put_trait(traits: Seq<TraitEntryView>, entry: TraitEntryView) -> Seq<
    TraitEntryView,
> {
    let i = trait_position(traits, entry.def.name);
    if 0 <= i < traits.len() {
        traits.update(i, entry)
    } else {
        traits.push(entry)
    }
}

/// The traits `dst` after the first `n` of `src` were registered in it.
pub open spec fn absorb_traits(dst: Seq<TraitEntryView>, src: Seq<TraitEntryView>, n: nat) -> Seq<
    TraitEntryView,
>
    decreases n,
{
    if n == 0 || n > src.len() {
        dst
    } else {
        put_trait(absorb_traits(dst, src, (n - 1) as nat), src[n - 1])
    }
}

/// The first of `insts`, from the place `from` on, that implements a trait
/// named `name`.
pub open spec fn first_named(insts: Seq<TraitInstanceView>, name: Seq<char>, from: nat) -> Option<
    TraitInstanceView,
>
    decreases insts.len() - from,
{
    if from >= insts.len() {
        None
    } else if insts[from as int].def.name == name {
        Some(insts[from as int])
    } else {
        first_named(insts, name, from + 1)
    }
}

/// The variables `vars` and the first `n` of `fields`, a later field of a
/// name in the place of an earlier one.
pub open spec fn declare_fields(
    vars: Map<Seq<char>, ValueView>,
    fields: Seq<(Seq<char>, ValueView)>,
    n: nat,
) -> Map<Seq<char>, ValueView>
    decreases n,
{
    if n == 0 || n > fields.len() {
        vars
    } else {
        declare_fields(vars, fields, (n - 1) as nat).insert(fields[n - 1].0, fields[n - 1].1)
    }
}

/// The variables `vars` and, where `v` is a struct instance, its fields.
pub open spec fn with_fields(vars: Map<Seq<char>, ValueView>, v: ValueView) -> Map<
    Seq<char>,
    ValueView,
> {
    match v {
        ValueView::StructInstance { fields, .. } => declare_fields(vars, fields, fields.len()),
        _ => vars,
    }
}

/// The variables `vars` and the methods of `inst`, each under its name.
pub open spec fn instance_methods(vars: Map<Seq<char>, ValueView>, inst: TraitInstanceView) -> Map<
    Seq<char>,
    ValueView,
> {
    Map::new(
        |k: Seq<char>| vars.contains_key(k) || inst.get_function(k) is Some,
        |k: Seq<char>|
            match inst.get_function(k) {
                Some(f) => ValueView::Function(f),
                None => vars[k],
            },
    )
}

/// The variables `vars` and the methods of `insts` from the place `from` on.
/// Where two of them have a method of one name, that of the earlier one
/// stands.
pub open spec fn with_methods(
    vars: Map<Seq<char>, ValueView>,
    insts: Seq<TraitInstanceView>,
    from: nat,
) -> Map<Seq<char>, ValueView>
    decreases insts.len() - from,
{
    if from >= insts.len() {
        vars
    } else {
        instance_methods(with_methods(vars, insts, from + 1), insts[from as int])
    }
}

/// A trait that was registered is known by its name.
pub proof fn lemma_put_trait_known(traits: Seq<TraitEntryView>, entry: TraitEntryView)
    ensures
        0 <= trait_position(put_trait(traits, entry), entry.def.name) < put_trait(
            traits,
            entry,
        ).len(),
        put_trait(traits, entry)[trait_position(put_trait(traits, entry), entry.def.name)] == entry,
{
    let name = entry.def.name;
    let i = trait_position(traits, name);
    lemma_trait_position(traits, name);
    let after = put_trait(traits, entry);
    if 0 <= i < traits.len() {
        assert forall|j: int| i < j < after.len() implies (#[trigger] after[j]).def.name != name by {
            assert(after[j] == traits[j]);
        }
        lemma_trait_position_is(after, name, i);
    } else {
        lemma_trait_position_is(after, name, traits.len() as int);
    }
}

/// What an assignment to a name that is not bound says.
pub open spec fn undefined_variable_message(name: Seq<char>) -> Seq<char> {
    "No variable named "@ + name + " to re-assign to."@
}

/// What an assignment of a value of another type says.
pub open spec fn type_mismatch_message(name: Seq<char>, actual: TypeView, held: TypeView) -> Seq<
    char,
> {
    "Can't assign value of type "@ + type_label(actual) + " to variable "@ + name
        + ", which has type "@ + type_label(held)
}

/// What an implementation of a trait that was not declared says.
pub open spec fn unknown_trait_message(name: Seq<char>) -> Seq<char> {
    "No trait named "@ + name + " available to implement."@
}

impl ScopeView {
    /// The scope that holds nothing.
    pub open spec fn empty() -> ScopeView {
        ScopeView {
            traits: Seq::empty(),
            variables: Map::empty(),
            structs: Map::empty(),
            for_var: None,
            export: None,
        }
    }

    /// Whether the type `ty` accepts the value `v` in this scope, where the
    /// search through traits that are open to the implementors of other
    /// traits may go `fuel` traits deep.
    ///
    /// `Any` accepts every value. `This` accepts the values of the type of the
    /// value that the scope was made for. A trait accepts the values that one
    /// of its implementations is for. Every other type accepts the values of
    /// that type.
    pub open spec fn matches_at(self, ty: TypeView, v: ValueView, fuel: nat) -> bool
        decreases fuel, 0nat, 0nat,
    {
        match ty {
            TypeView::Any => true,
            TypeView::This => match self.for_var {
                Some(c) => c.type_of() == v.type_of(),
                None => false,
            },
            TypeView::Implements(name) => fuel > 0 && self.implements_at(
                v,
                name,
                (fuel - 1) as nat,
            ),
            _ => v.type_of() == ty,
        }
    }

    /// Whether an implementation is for `v`: its trait is open to `v`, and so
    /// is the implementation itself.
    pub open spec fn instance_matches_at(self, inst: TraitInstanceView, v: ValueView, fuel: nat) -> bool
        decreases fuel, 1nat, 0nat,
    {
        &&& match inst.def.restriction {
            Some(r) => self.matches_at(r, v, fuel),
            None => true,
        }
        &&& self.matches_at(inst.restriction, v, fuel)
    }

    /// Whether one of the first `n` of `instances` is for `v`.
    pub open spec fn any_matches_at(
        self,
        instances: Seq<TraitInstanceView>,
        n: nat,
        v: ValueView,
        fuel: nat,
    ) -> bool
        decreases fuel, 2nat, n,
    {
        if n == 0 || n > instances.len() {
            false
        } else {
            self.instance_matches_at(instances[n - 1], v, fuel) || self.any_matches_at(
                instances,
                (n - 1) as nat,
                v,
                fuel,
            )
        }
    }

    /// Whether the trait named `name` has an implementation for `v`.
    pub open spec fn implements_at(self, v: ValueView, name: Seq<char>, fuel: nat) -> bool
        decreases fuel, 3nat, 0nat,
    {
        let i = trait_position(self.traits, name);
        i >= 0 && i < self.traits.len() && self.any_matches_at(
            self.traits[i].instances,
            self.traits[i].instances.len(),
            v,
            fuel,
        )
    }

    /// Whether the type `ty` accepts the value `v` in this scope.
    pub open spec fn matches(self, ty: TypeView, v: ValueView) -> bool {
        self.matches_at(ty, v, self.traits.len())
    }

    /// Whether an implementation is for `v`.
    pub open spec fn instance_matches(self, inst: TraitInstanceView, v: ValueView) -> bool {
        self.instance_matches_at(inst, v, self.traits.len())
    }

    /// Whether the trait named `name` has an implementation for `v`.
    pub open spec fn implements(self, v: ValueView, name: Seq<char>) -> bool {
        self.matches(TypeView::Implements(name), v)
    }

    /// The scope after `name` was declared as `v`: bound here, and in the
    /// scope that declarations are repeated in.
    pub open spec fn declare(self, name: Seq<char>, v: ValueView) -> ScopeView
        decreases self,
    {
        ScopeView {
            variables: self.variables.insert(name, v),
            export: match self.export {
                Some(e) => Some(Box::new(e.declare(name, v))),
                None => None,
            },
            ..self
        }
    }

    /// The scope after the trait `def` was declared: registered without
    /// implementations, in the place of a trait of the same name where there
    /// is one and after the others where there is none; here and in the scope
    /// that declarations are repeated in.
    pub open spec fn declare_trait(self, def: TraitDefView) -> ScopeView
        decreases self,
    {
        ScopeView {
            traits: put_trait(self.traits, TraitEntryView { def, instances: Seq::empty() }),
            export: match self.export {
                Some(e) => Some(Box::new(e.declare_trait(def))),
                None => None,
            },
            ..self
        }
    }

    /// The scope after `inst` was registered as the newest implementation of
    /// the trait named `name`, wherever that trait is known: here and in the
    /// scope that declarations are repeated in.
    pub open spec fn implement(self, name: Seq<char>, inst: TraitInstanceView) -> ScopeView
        decreases self,
    {
        let i = trait_position(self.traits, name);
        ScopeView {
            traits: if 0 <= i < self.traits.len() {
                self.traits.update(
                    i,
                    TraitEntryView {
                        def: self.traits[i].def,
                        instances: self.traits[i].instances.push(inst),
                    },
                )
            } else {
                self.traits
            },
            export: match self.export {
                Some(e) => Some(Box::new(e.implement(name, inst))),
                None => None,
            },
            ..self
        }
    }

    /// The scope after the struct `def` was defined under `name`, here and in
    /// the scope that declarations are repeated in.
    pub open spec fn define_struct(self, name: Seq<char>, def: StructDefView) -> ScopeView
        decreases self,
    {
        ScopeView {
            structs: self.structs.insert(name, def),
            export: match self.export {
                Some(e) => Some(Box::new(e.define_struct(name, def))),
                None => None,
            },
            ..self
        }
    }

    /// A scope of its own with the same traits, variables and structs, made
    /// for no value and repeating its declarations nowhere.
    pub open spec fn child(self) -> ScopeView {
        ScopeView { for_var: None, export: None, ..self }
    }

    /// Those of the first `n` of `instances` that accept `v`, oldest first.
    pub open spec fn instances_for(self, instances: Seq<TraitInstanceView>, n: nat, v: ValueView) -> Seq<
        TraitInstanceView,
    >
        decreases n,
    {
        if n == 0 || n > instances.len() {
            Seq::empty()
        } else {
            let rest = self.instances_for(instances, (n - 1) as nat, v);
            if self.matches(instances[n - 1].restriction, v) {
                rest.push(instances[n - 1])
            } else {
                rest
            }
        }
    }

    /// The implementations for `v` among those of the first `n` traits.
    pub open spec fn traits_for_upto(self, n: nat, v: ValueView) -> Seq<TraitInstanceView>
        decreases n,
    {
        if n == 0 || n > self.traits.len() {
            Seq::empty()
        } else {
            let rest = self.traits_for_upto((n - 1) as nat, v);
            let entry = self.traits[n - 1];
            let open = match entry.def.restriction {
                Some(r) => self.matches(r, v),
                None => true,
            };
            if open {
                rest + self.instances_for(entry.instances, entry.instances.len(), v)
            } else {
                rest
            }
        }
    }

    /// The implementations for `v`: of the traits that are open to `v`, in
    /// the order in which the traits were registered, those implementations
    /// that accept `v`, in the order in which they were registered.
    pub open spec fn traits_for(self, v: ValueView) -> Seq<TraitInstanceView> {
        self.traits_for_upto(self.traits.len(), v)
    }

    /// The first implementation for `v` of a trait named `name`.
    pub open spec fn trait_for(self, v: ValueView, name: Seq<char>) -> Option<TraitInstanceView> {
        first_named(self.traits_for(v), name, 0)
    }

    /// The scope made for `v`, in which the fields of `v` and the methods of
    /// the implementations for `v` are variables. It has the traits of this
    /// scope, and neither structs nor a scope to repeat declarations in.
    pub open spec fn child_for_var(self, v: ValueView) -> ScopeView {
        ScopeView {
            traits: self.traits,
            variables: with_methods(with_fields(Map::empty(), v), self.traits_for(v), 0),
            structs: Map::empty(),
            for_var: Some(v),
            export: None,
        }
    }

    /// The scope after everything in `src` was copied into it: each variable
    /// and struct of `src` is bound as in `src`, and each trait of `src` is
    /// known as in `src`.
    pub open spec fn absorb(self, src: ScopeView) -> ScopeView {
        ScopeView {
            traits: absorb_traits(self.traits, src.traits, src.traits.len()),
            variables: self.variables.union_prefer_right(src.variables),
            structs: self.structs.union_prefer_right(src.structs),
            ..self
        }
    }

    /// The scope after what `src` knows under `name` was copied into it: the
    /// variable, the struct and the trait of that name, each if there is one.
    pub open spec fn absorb_named(self, src: ScopeView, name: Seq<char>) -> ScopeView {
        let i = trait_position(src.traits, name);
        ScopeView {
            traits: if 0 <= i < src.traits.len() {
                put_trait(self.traits, src.traits[i])
            } else {
                self.traits
            },
            variables: if src.variables.contains_key(name) {
                self.variables.insert(name, src.variables[name])
            } else {
                self.variables
            },
            structs: if src.structs.contains_key(name) {
                self.structs.insert(name, src.structs[name])
            } else {
                self.structs
            },
            ..self
        }
    }

    /// The type that `name` stands for: one of the built-in names, `uses` and
    /// the name of a trait of this scope, or the name of a struct of this
    /// scope.
    pub open spec fn resolve_type(self, name: Seq<char>) -> Option<TypeView> {
        if name == "number"@ {
            Some(TypeView::Number)
        } else if name == "string"@ {
            Some(TypeView::String)
        } else if name == "bool"@ {
            Some(TypeView::Boolean)
        } else if name == "null"@ {
            Some(TypeView::Undefined)
        } else if name == "any"@ {
            Some(TypeView::Any)
        } else if has_prefix(name, "uses "@) {
            let t = name.subrange("uses "@.len() as int, name.len() as int);
            if trait_position(self.traits, t) >= 0 {
                Some(TypeView::Implements(t))
            } else {
                None
            }
        } else if self.structs.contains_key(name) {
            Some(TypeView::StructInstance(self.structs[name].types))
        } else {
            None
        }
    }

    /// What an assignment of `v` to `name` fails with, if it fails: the name
    /// must be bound, to a value of the type of `v`.
    pub open spec fn assign_error(self, name: Seq<char>, v: ValueView) -> Option<ErrorView> {
        if !self.variables.contains_key(name) {
            Some(anonymous_error(ErrorKind::UndefinedVariable, undefined_variable_message(name)))
        } else if !self.matches(self.variables[name].type_of(), v) {
            Some(
                anonymous_error(
                    ErrorKind::TypeMismatch,
                    type_mismatch_message(name, v.type_of(), self.variables[name].type_of()),
                ),
            )
        } else {
            None
        }
    }

    /// The scope after `v` was assigned to `name`.
    pub open spec fn assign(self, name: Seq<char>, v: ValueView) -> ScopeView {
        ScopeView { variables: self.variables.insert(name, v), ..self }
    }
}

/// Named values as a map.
pub open spec fn values_map(s: Seq<(String, Arc<Value>)>) -> Map<Seq<char>, ValueView> {
    Map::new(|k: Seq<char>| bound(s, k), |k: Seq<char>| s[position(s, k)].1.view())
}

/// Named struct definitions as a map.
pub open spec fn defs_map(s: Seq<(String, Arc<StructDefinition>)>) -> Map<Seq<char>, StructDefView> {
    Map::new(|k: Seq<char>| bound(s, k), |k: Seq<char>| s[position(s, k)].1.view())
}

/// The implementations of a trait, oldest first.
pub open spec fn instances_view(s: Seq<Arc<TraitInstance>>) -> Seq<TraitInstanceView> {
    Seq::new(s.len(), |i: int| s[i].view())
}

/// The traits of a scope, oldest first.
pub open spec fn traits_view(s: Seq<(Arc<TraitDefinition>, Vec<Arc<TraitInstance>>)>) -> Seq<
    TraitEntryView,
> {
    Seq::new(
        s.len(),
        |i: int| TraitEntryView { def: s[i].0.view(), instances: instances_view(s[i].1@) },
    )
}

/// Putting a value under a name is an insertion into the map of values.
proof fn lemma_values_put(
    before: Seq<(String, Arc<Value>)>,
    after: Seq<(String, Arc<Value>)>,
    key: Seq<char>,
    value: Arc<Value>,
)
    requires
        forall|k: Seq<char>|
            #![trigger position(after, k)]
            #![trigger lookup(after, k)]
            {
                &&& lookup(after, k) == (if k == key {
                    Some(value)
                } else {
                    lookup(before, k)
                })
                &&& bound(after, k) == (k == key || bound(before, k))
            },
    ensures
        values_map(after) == values_map(before).insert(key, value.view()),
{
    assert forall|k: Seq<char>| #[trigger]
        values_map(after).dom().contains(k) == values_map(before).insert(
            key,
            value.view(),
        ).dom().contains(k) by {
        assert(lookup(after, k) == lookup(after, k));
    }
    assert forall|k: Seq<char>| #[trigger] values_map(after).dom().contains(k) implies values_map(
        after,
    )[k] == values_map(before).insert(key, value.view())[k] by {
        assert(lookup(after, k) == lookup(after, k));
    }
    assert(values_map(after) =~= values_map(before).insert(key, value.view()));
}

/// Putting a struct definition under a name is an insertion into the map of
/// definitions.
proof fn lemma_defs_put(
    before: Seq<(String, Arc<StructDefinition>)>,
    after: Seq<(String, Arc<StructDefinition>)>,
    key: Seq<char>,
    value: Arc<StructDefinition>,
)
    requires
        forall|k: Seq<char>|
            #![trigger position(after, k)]
            #![trigger lookup(after, k)]
            {
                &&& lookup(after, k) == (if k == key {
                    Some(value)
                } else {
                    lookup(before, k)
                })
                &&& bound(after, k) == (k == key || bound(before, k))
            },
    ensures
        defs_map(after) == defs_map(before).insert(key, value.view()),
{
    assert forall|k: Seq<char>| #[trigger]
        defs_map(after).dom().contains(k) == defs_map(before).insert(
            key,
            value.view(),
        ).dom().contains(k) by {
        assert(lookup(after, k) == lookup(after, k));
    }
    assert forall|k: Seq<char>| #[trigger] defs_map(after).dom().contains(k) implies defs_map(
        after,
    )[k] == defs_map(before).insert(key, value.view())[k] by {
        assert(lookup(after, k) == lookup(after, k));
    }
    assert(defs_map(after) =~= defs_map(before).insert(key, value.view()));
}

/// The index of the last trait named `name`.
fn find_trait(traits: &Vec<(Arc<TraitDefinition>, Vec<Arc<TraitInstance>>)>, name: &str) -> (r:
    Option<usize>)
    ensures
        match r {
            Some(i) => i as int == trait_position(traits_view(traits@), name@) && i < traits.len(),
            None => trait_position(traits_view(traits@), name@) == -1,
        },
{
    let ghost views = traits_view(traits@);
    let mut i: usize = traits.len();
    while i > 0
        invariant
            i <= traits.len(),
            views == traits_view(traits@),
            forall|j: int| i <= j < traits.len() ==> (#[trigger] views[j]).def.name != name@,
        decreases i,
    {
        i = i - 1;
        if same_text(traits[i].0.name.as_str(), name) {
            proof {
                lemma_trait_position_is(views, name@, i as int);
            }
            return Some(i);
        }
    }
    proof {
        lemma_trait_position_none(views, name@);
    }
    None
}

/// A copy of a list of implementations.
fn copy_instances(v: &Vec<Arc<TraitInstance>>) -> (r: Vec<Arc<TraitInstance>>)
    ensures
        r@ == v@,
{
    let mut r: Vec<Arc<TraitInstance>> = Vec::new();
    let mut i: usize = 0;
    while i < v.len()
        invariant
            i <= v.len(),
            r@ == v@.subrange(0, i as int),
        decreases v.len() - i,
    {
        r.push(share(&v[i]));
        i = i + 1;
        assert(r@ =~= v@.subrange(0, i as int));
    }
    assert(v@.subrange(0, v.len() as int) =~= v@);
    r
}

/// A copy of a list of traits.
fn copy_traits(v: &Vec<(Arc<TraitDefinition>, Vec<Arc<TraitInstance>>)>) -> (r: Vec<
    (Arc<TraitDefinition>, Vec<Arc<TraitInstance>>),
>)
    ensures
        traits_view(r@) == traits_view(v@),
{
    let mut r: Vec<(Arc<TraitDefinition>, Vec<Arc<TraitInstance>>)> = Vec::new();
    let mut i: usize = 0;
    while i < v.len()
        invariant
            i <= v.len(),
            r@.len() == i,
            forall|j: int|
                0 <= j < i ==> (#[trigger] r@[j]).0 == v@[j].0 && r@[j].1@ == v@[j].1@,
        decreases v.len() - i,
    {
        r.push((share(&v[i].0), copy_instances(&v[i].1)));
        i = i + 1;
    }
    assert(traits_view(r@) =~= traits_view(v@));
    r
}

/// Registers a trait with its implementations.
fn put_trait_entry(
    traits: &mut Vec<(Arc<TraitDefinition>, Vec<Arc<TraitInstance>>)>,
    def: Arc<TraitDefinition>,
    instances: Vec<Arc<TraitInstance>>,
)
    ensures
        traits_view(final(traits)@) == put_trait(
            traits_view(old(traits)@),
            TraitEntryView { def: def.view(), instances: instances_view(instances@) },
        ),
{
    let ghost before = traits_view(traits@);
    let ghost entry = TraitEntryView { def: def.view(), instances: instances_view(instances@) };
    match find_trait(traits, def.name.as_str()) {
        Some(i) => {
            traits.set(i, (def, instances));
            assert(traits_view(traits@) =~= before.update(i as int, entry));
        },
        None => {
            traits.push((def, instances));
            assert(traits_view(traits@) =~= before.push(entry));
        },
    }
}

/// The variables after the methods of `inst` whose names are among the first
/// `i` of `f` and the first `j` of `o` were added.
spec fn methods_so_far(
    vars: Map<Seq<char>, ValueView>,
    inst: TraitInstanceView,
    f: Seq<(String, Arc<Function>)>,
    i: int,
    o: Seq<(String, Arc<Function>)>,
    j: int,
) -> Map<Seq<char>, ValueView> {
    Map::new(
        |k: Seq<char>| vars.contains_key(k) || bound(f.subrange(0, i), k) || bound(o.subrange(0, j), k),
        |k: Seq<char>|
            if bound(f.subrange(0, i), k) || bound(o.subrange(0, j), k) {
                match inst.get_function(k) {
                    Some(g) => ValueView::Function(g),
                    None => vars[k],
                }
            } else {
                vars[k]
            },
    )
}

/// Adds the methods of `t` to `vars`, each under its name.
fn add_methods(vars: &mut Vec<(String, Arc<Value>)>, t: &TraitInstance)
    ensures
        values_map(final(vars)@) == instance_methods(values_map(old(vars)@), t.view()),
{
    let ghost base = values_map(vars@);
    let ghost f = t.def.functions@;
    let ghost o = t.overrides@;
    let mut i: usize = 0;
    assert(values_map(vars@) =~= methods_so_far(base, t.view(), f, 0, o, 0)) by {
        assert forall|k: Seq<char>| !bound(f.subrange(0, 0), k) && !bound(o.subrange(0, 0), k) by {
            lemma_position(f.subrange(0, 0), k);
            lemma_position(o.subrange(0, 0), k);
        }
    }
    while i < t.def.functions.len()
        invariant
            i <= f.len(),
            f == t.def.functions@,
            o == t.overrides@,
            values_map(vars@) == methods_so_far(base, t.view(), f, i as int, o, 0),
        decreases f.len() - i,
    {
        let name = t.def.functions[i].0.as_str();
        proof {
            lemma_entry_bound(f, i as int);
            lemma_position(o, name@);
        }
        let ghost before = vars@;
        match t.get_function(name) {
            Some(g) => {
                let value = Arc::new(Value::Function(g));
                put(vars, name.to_owned(), share(&value));
                proof {
                    lemma_values_put(before, vars@, name@, value);
                    assert forall|k: Seq<char>|
                        bound(f.subrange(0, i + 1), k) == (f[i as int].0@ == k || bound(
                            f.subrange(0, i as int),
                            k,
                        )) by {
                        lemma_prefix_push(f, i as int, k);
                    }
                    assert(values_map(vars@) =~= methods_so_far(
                        base,
                        t.view(),
                        f,
                        i + 1,
                        o,
                        0,
                    ));
                }
            },
            None => {
                assert(false);
            },
        }
        i = i + 1;
    }
    assert(f.subrange(0, f.len() as int) =~= f);
    let mut j: usize = 0;
    while j < t.overrides.len()
        invariant
            j <= o.len(),
            f == t.def.functions@,
            o == t.overrides@,
            values_map(vars@) == methods_so_far(base, t.view(), f, f.len() as int, o, j as int),
        decreases o.len() - j,
    {
        let name = t.overrides[j].0.as_str();
        proof {
            lemma_entry_bound(o, j as int);
        }
        let ghost before = vars@;
        match t.get_function(name) {
            Some(g) => {
                let value = Arc::new(Value::Function(g));
                put(vars, name.to_owned(), share(&value));
                proof {
                    lemma_values_put(before, vars@, name@, value);
                    assert forall|k: Seq<char>|
                        bound(o.subrange(0, j + 1), k) == (o[j as int].0@ == k || bound(
                            o.subrange(0, j as int),
                            k,
                        )) by {
                        lemma_prefix_push(o, j as int, k);
                    }
                    assert(values_map(vars@) =~= methods_so_far(
                        base,
                        t.view(),
                        f,
                        f.len() as int,
                        o,
                        j + 1,
                    ));
                }
            },
            None => {
                assert(false);
            },
        }
        j = j + 1;
    }
    proof {
        assert(o.subrange(0, o.len() as int) =~= o);
        assert(f.subrange(0, f.len() as int) =~= f);
        assert(values_map(vars@) =~= instance_methods(base, t.view()));
    }
}

impl Scope {
    pub closed spec fn view(&self) -> ScopeView
        decreases self,
    {
        ScopeView {
            traits: traits_view(self.traits@),
            variables: values_map(self.variables@),
            structs: defs_map(self.structs@),
            for_var: match self.for_var {
                Some(v) => Some(v.view()),
                None => None,
            },
            export: match self.export {
                Some(e) => Some(Box::new(e.view())),
                None => None,
            },
        }
    }

    /// A scope that holds nothing.
    pub fn new() -> (r: Self)
        ensures
            r.view() == ScopeView::empty(),
    {
        let r = Scope {
            traits: Vec::new(),
            variables: Vec::new(),
            structs: Vec::new(),
            for_var: None,
            export: None,
        };
        proof {
            assert(r.view().traits =~= Seq::empty());
            assert(r.view().variables =~= Map::empty());
            assert(r.view().structs =~= Map::empty());
        }
        r
    }

    /// The value that the scope was made for.
    pub fn container(&self) -> (r: Option<Arc<Value>>)
        ensures
            match r {
                Some(v) => self.view().for_var == Some(v.view()),
                None => self.view().for_var is None,
            },
    {
        match &self.for_var {
            Some(v) => Some(share(v)),
            None => None,
        }
    }

    /// How many traits the scope knows.
    pub fn trait_count(&self) -> (r: usize)
        ensures
            r == self.view().traits.len(),
    {
        self.traits.len()
    }

    /// The value that `var` is bound to.
    pub fn get(&self, var: &str) -> (r: Option<Arc<Value>>)
        ensures
            match r {
                Some(v) => self.view().variables.contains_key(var@) && self.view().variables[var@]
                    == v.view(),
                None => !self.view().variables.contains_key(var@),
            },
    {
        proof {
            lemma_position(self.variables@, var@);
        }
        match find(&self.variables, var) {
            Some(i) => Some(share(&self.variables[i].1)),
            None => None,
        }
    }

    /// Binds `var` to `value`, here and in the scope that declarations are
    /// repeated in.
    pub fn declare(&mut self, var: &str, value: Value)
        ensures
            final(self).view() == old(self).view().declare(var@, value.view()),
    {
        self.declare_shared(var, Arc::new(value));
    }

    /// Binds `var` to a value that is shared already.
    pub(crate) fn declare_shared(&mut self, var: &str, value: Arc<Value>)
        ensures
            final(self).view() == old(self).view().declare(var@, value.view()),
        decreases *old(self),
    {
        let mut sink: Option<Box<Scope>> = None;
        std::mem::swap(&mut sink, &mut self.export);
        match sink {
            Some(mut e) => {
                e.declare_shared(var, share(&value));
                self.export = Some(e);
            },
            None => {},
        }
        let ghost before = self.variables@;
        put(&mut self.variables, var.to_owned(), share(&value));
        proof {
            lemma_values_put(before, self.variables@, var@, value);
        }
    }

    /// Whether the type `ty` accepts `v` in this scope, searching `fuel`
    /// traits deep.
    pub(crate) fn matches_at(&self, ty: &ValueType, v: &Value, fuel: usize) -> (r: bool)
        ensures
            r == self.view().matches_at(ty.view(), v.view(), fuel as nat),
        decreases fuel, 0nat, 0nat,
    {
        match ty {
            ValueType::Any => true,
            ValueType::This => match &self.for_var {
                Some(c) => c.type_of().same(&v.type_of()),
                None => false,
            },
            ValueType::Implements(name) => fuel > 0 && self.implements_at(
                v,
                name.as_str(),
                fuel - 1,
            ),
            _ => v.type_of().same(ty),
        }
    }

    /// Whether an implementation is for `v`.
    pub(crate) fn instance_matches_at(&self, inst: &TraitInstance, v: &Value, fuel: usize) -> (r:
        bool)
        ensures
            r == self.view().instance_matches_at(inst.view(), v.view(), fuel as nat),
        decreases fuel, 1nat, 0nat,
    {
        let open = match &inst.def.restriction {
            Some(r) => self.matches_at(r, v, fuel),
            None => true,
        };
        open && self.matches_at(&inst.restriction, v, fuel)
    }

    /// Whether the trait named `name` has an implementation for `v`.
    pub(crate) fn implements_at(&self, v: &Value, name: &str, fuel: usize) -> (r: bool)
        ensures
            r == self.view().implements_at(v.view(), name@, fuel as nat),
        decreases fuel, 3nat, 0nat,
    {
        match find_trait(&self.traits, name) {
            None => false,
            Some(i) => {
                let instances = &self.traits[i].1;
                let ghost views = self.view().traits[i as int].instances;
                assert(self.view().traits == traits_view(self.traits@));
                assert(views == instances_view(instances@));
                let mut n: usize = instances.len();
                while n > 0
                    invariant
                        n <= instances.len(),
                        views == instances_view(instances@),
                        i as int == trait_position(self.view().traits, name@),
                        i < self.view().traits.len(),
                        views == self.view().traits[i as int].instances,
                        self.view().any_matches_at(views, views.len(), v.view(), fuel as nat)
                            == self.view().any_matches_at(views, n as nat, v.view(), fuel as nat),
                    decreases n,
                {
                    assert(views[n - 1] == instances@[n - 1].view());
                    if self.instance_matches_at(&instances[n - 1], v, fuel) {
                        return true;
                    }
                    n = n - 1;
                }
                false
            },
        }
    }

    /// Whether the trait `t` has an implementation for `v`.
    pub fn implements(&self, v: &Value, t: &TraitDefinition) -> (r: bool)
        ensures
            r == self.view().implements(v.view(), t.name@),
    {
        let fuel = self.trait_count();
        fuel > 0 && self.implements_at(v, t.name.as_str(), fuel - 1)
    }

    /// A scope of its own with the same traits, variables and structs.
    pub fn child(&self) -> (r: Self)
        ensures
            r.view() == self.view().child(),
    {
        Scope {
            traits: copy_traits(&self.traits),
            variables: copy_entries(&self.variables),
            structs: copy_entries(&self.structs),
            for_var: None,
            export: None,
        }
    }

    /// The implementations for `v`, in the order of registration.
    pub fn get_traits_for(&self, v: Value) -> (r: Vec<Arc<TraitInstance>>)
        ensures
            instances_view(r@) == self.view().traits_for(v.view()),
    {
        let ghost view = self.view();
        let fuel = self.trait_count();
        let mut out: Vec<Arc<TraitInstance>> = Vec::new();
        let mut i: usize = 0;
        assert(instances_view(out@) =~= view.traits_for_upto(0, v.view()));
        while i < self.traits.len()
            invariant
                i <= self.traits.len(),
                view == self.view(),
                view.traits == traits_view(self.traits@),
                fuel == view.traits.len(),
                instances_view(out@) == view.traits_for_upto(i as nat, v.view()),
            decreases self.traits.len() - i,
        {
            let open = match &self.traits[i].0.restriction {
                Some(r) => self.matches_at(r, &v, fuel),
                None => true,
            };
            if open {
                let instances = &self.traits[i].1;
                let ghost views = view.traits[i as int].instances;
                let ghost base = instances_view(out@);
                let mut j: usize = 0;
                assert(instances_view(out@) =~= base + view.instances_for(views, 0, v.view()));
                while j < instances.len()
                    invariant
                        j <= instances.len(),
                        view == self.view(),
                        fuel == view.traits.len(),
                        views == instances_view(instances@),
                        instances_view(out@) == base + view.instances_for(
                            views,
                            j as nat,
                            v.view(),
                        ),
                    decreases instances.len() - j,
                {
                    let ghost before = instances_view(out@);
                    assert(views[j as int] == instances@[j as int].view());
                    if self.matches_at(&instances[j].restriction, &v, fuel) {
                        out.push(share(&instances[j]));
                        assert(instances_view(out@) =~= before.push(views[j as int]));
                        assert(before.push(views[j as int]) =~= base + view.instances_for(
                            views,
                            j as nat,
                            v.view(),
                        ).push(views[j as int]));
                    }
                    j = j + 1;
                }
            }
            i = i + 1;
        }
        out
    }

    /// The first implementation for `v` of a trait named `n`.
    pub fn get_trait_for(&self, v: Value, n: &str) -> (r: Option<Arc<TraitInstance>>)
        ensures
            match r {
                Some(t) => self.view().trait_for(v.view(), n@) == Some(t.view()),
                None => self.view().trait_for(v.view(), n@) is None,
            },
    {
        let ghost value = v.view();
        let all = self.get_traits_for(v);
        let ghost views = instances_view(all@);
        let mut i: usize = 0;
        while i < all.len()
            invariant
                i <= all.len(),
                views == instances_view(all@),
                views == self.view().traits_for(value),
                value == v.view(),
                first_named(views, n@, 0) == first_named(views, n@, i as nat),
            decreases all.len() - i,
        {
            assert(views[i as int] == all@[i as int].view());
            if same_text(all[i].def.name.as_str(), n) {
                assert(views[i as int].def.name == n@);
                assert(first_named(views, n@, i as nat) == Some(views[i as int]));
                return Some(share(&all[i]));
            }
            i = i + 1;
        }
        None
    }

    /// The scope made for `v`: the fields of `v` and the methods of the
    /// implementations for `v` are its variables.
    pub fn child_for_var(&self, v: Value) -> (r: Self)
        ensures
            r.view() == self.view().child_for_var(v.view()),
    {
        let mut vars: Vec<(String, Arc<Value>)> = Vec::new();
        assert(values_map(vars@) =~= Map::empty());
        match &v {
            Value::StructInstance(_, fields) => {
                let ghost views = fields_view(fields@);
                let mut i: usize = 0;
                while i < fields.len()
                    invariant
                        i <= fields.len(),
                        views == fields_view(fields@),
                        values_map(vars@) == declare_fields(Map::empty(), views, i as nat),
                    decreases fields.len() - i,
                {
                    let ghost before = vars@;
                    let value = Arc::new(fields[i].1.clone());
                    put(&mut vars, fields[i].0.clone(), share(&value));
                    proof {
                        lemma_values_put(before, vars@, fields@[i as int].0@, value);
                        assert(views[i as int] == (fields@[i as int].0@, fields@[i as int].1.view()));
                    }
                    i = i + 1;
                }
            },
            _ => {},
        }
        assert(values_map(vars@) == with_fields(Map::empty(), v.view()));
        let ghost base = values_map(vars@);
        let insts = self.get_traits_for(v.clone());
        let ghost views = instances_view(insts@);
        let mut n: usize = insts.len();
        while n > 0
            invariant
                n <= insts.len(),
                views == instances_view(insts@),
                values_map(vars@) == with_methods(base, views, n as nat),
            decreases n,
        {
            n = n - 1;
            assert(views[n as int] == insts@[n as int].view());
            add_methods(&mut vars, &insts[n]);
        }
        let r = Scope {
            traits: copy_traits(&self.traits),
            variables: vars,
            structs: Vec::new(),
            for_var: Some(Arc::new(v)),
            export: None,
        };
        assert(r.view().structs =~= Map::empty());
        r
    }

    /// Defines the struct `def` under `name`, here and in the scope that
    /// declarations are repeated in.
    pub fn define_struct(&mut self, name: &str, def: StructDefinition)
        ensures
            final(self).view() == old(self).view().define_struct(name@, def.view()),
    {
        self.define_shared(name, Arc::new(def));
    }

    /// Defines a struct that is shared already.
    fn define_shared(&mut self, name: &str, def: Arc<StructDefinition>)
        ensures
            final(self).view() == old(self).view().define_struct(name@, def.view()),
        decreases *old(self),
    {
        let mut sink: Option<Box<Scope>> = None;
        std::mem::swap(&mut sink, &mut self.export);
        match sink {
            Some(mut e) => {
                e.define_shared(name, share(&def));
                self.export = Some(e);
            },
            None => {},
        }
        let ghost before = self.structs@;
        put(&mut self.structs, name.to_owned(), share(&def));
        proof {
            lemma_defs_put(before, self.structs@, name@, def);
        }
    }

    /// The struct defined under `name`.
    pub fn get_structdef(&self, name: &str) -> (r: Option<Arc<StructDefinition>>)
        ensures
            match r {
                Some(d) => self.view().structs.contains_key(name@) && self.view().structs[name@]
                    == d.view(),
                None => !self.view().structs.contains_key(name@),
            },
    {
        proof {
            lemma_position(self.structs@, name@);
        }
        match find(&self.structs, name) {
            Some(i) => Some(share(&self.structs[i].1)),
            None => None,
        }
    }

    /// Registers the trait `t`, without implementations, here and in the
    /// scope that declarations are repeated in.
    pub fn declare_trait(&mut self, t: &Arc<TraitDefinition>)
        ensures
            final(self).view() == old(self).view().declare_trait(t.view()),
        decreases *old(self),
    {
        let mut sink: Option<Box<Scope>> = None;
        std::mem::swap(&mut sink, &mut self.export);
        match sink {
            Some(mut e) => {
                e.declare_trait(t);
                self.export = Some(e);
            },
            None => {},
        }
        let none: Vec<Arc<TraitInstance>> = Vec::new();
        assert(instances_view(none@) =~= Seq::empty());
        put_trait_entry(&mut self.traits, share(t), none);
    }

    /// Registers an implementation that is shared already, wherever the trait
    /// named `n` is known.
    fn implement_shared(&mut self, n: &str, inst: &Arc<TraitInstance>)
        ensures
            final(self).view() == old(self).view().implement(n@, inst.view()),
        decreases *old(self),
    {
        let mut sink: Option<Box<Scope>> = None;
        std::mem::swap(&mut sink, &mut self.export);
        match sink {
            Some(mut e) => {
                e.implement_shared(n, inst);
                self.export = Some(e);
            },
            None => {},
        }
        let ghost before = traits_view(self.traits@);
        match find_trait(&self.traits, n) {
            Some(i) => {
                let mut instances = copy_instances(&self.traits[i].1);
                instances.push(share(inst));
                let def = share(&self.traits[i].0);
                self.traits.set(i, (def, instances));
                proof {
                    assert(instances_view(self.traits@[i as int].1@) =~= before[i as int].instances.push(
                        inst.view(),
                    ));
                    assert(traits_view(self.traits@) =~= before.update(
                        i as int,
                        TraitEntryView {
                            def: before[i as int].def,
                            instances: before[i as int].instances.push(inst.view()),
                        },
                    ));
                }
            },
            None => {},
        }
    }

    /// Registers a new implementation of the trait named `n`, which must have
    /// been declared. The implementation is what `f` makes of the trait's
    /// definition.
    pub fn implement_trait<F: Fn(Arc<TraitDefinition>) -> TraitInstance>(&mut self, n: &str, f: F) -> (r:
        Result<(), Error>)
        requires
            forall|d: Arc<TraitDefinition>| f.requires((d,)),
        ensures
            match r {
                Ok(_) => {
                    let i = trait_position(old(self).view().traits, n@);
                    &&& 0 <= i < old(self).view().traits.len()
                    &&& exists|d: Arc<TraitDefinition>, inst: TraitInstance|
                        {
                            &&& d.view() == old(self).view().traits[i].def
                            &&& #[trigger] f.ensures((d,), inst)
                            &&& final(self).view() == old(self).view().implement(n@, inst.view())
                        }
                },
                Err(e) => {
                    &&& trait_position(old(self).view().traits, n@) == -1
                    &&& e.view() == anonymous_error(ErrorKind::UnknownTrait, unknown_trait_message(n@))
                    &&& final(self).view() == old(self).view()
                },
            },
    {
        proof {
            lemma_trait_position(self.view().traits, n@);
        }
        match find_trait(&self.traits, n) {
            None => Err(
                Error::anonymous(
                    ErrorKind::UnknownTrait,
                    join3("No trait named ", n, " available to implement."),
                ),
            ),
            Some(i) => {
                let def = share(&self.traits[i].0);
                let inst = f(share(&def));
                let ghost made = inst;
                let shared = Arc::new(inst);
                self.implement_shared(n, &shared);
                assert(f.ensures((def,), made));
                Ok(())
            },
        }
    }

    /// Registers a new implementation of the trait named `n`, which must have
    /// been declared: the methods `overrides`, for the values that
    /// `restriction` accepts.
    pub fn implement(
        &mut self,
        n: &str,
        overrides: Vec<(String, Arc<Function>)>,
        restriction: ValueType,
    ) -> (r: Result<(), Error>)
        ensures
            match r {
                Ok(_) => {
                    let i = trait_position(old(self).view().traits, n@);
                    &&& 0 <= i < old(self).view().traits.len()
                    &&& final(self).view() == old(self).view().implement(
                        n@,
                        TraitInstanceView {
                            def: old(self).view().traits[i].def,
                            overrides: functions_map(overrides@),
                            restriction: restriction.view(),
                        },
                    )
                },
                Err(e) => {
                    &&& trait_position(old(self).view().traits, n@) == -1
                    &&& e.view() == anonymous_error(ErrorKind::UnknownTrait, unknown_trait_message(n@))
                    &&& final(self).view() == old(self).view()
                },
            },
    {
        proof {
            lemma_trait_position(self.view().traits, n@);
        }
        match find_trait(&self.traits, n) {
            None => Err(
                Error::anonymous(
                    ErrorKind::UnknownTrait,
                    join3("No trait named ", n, " available to implement."),
                ),
            ),
            Some(i) => {
                let inst = TraitInstance {
                    def: share(&self.traits[i].0),
                    overrides,
                    restriction: Box::new(restriction),
                };
                let shared = Arc::new(inst);
                self.implement_shared(n, &shared);
                Ok(())
            },
        }
    }

    /// The trait named `t`, with its implementations.
    pub fn get_trait(&self, t: &str) -> (r: Option<(Arc<TraitDefinition>, Vec<Arc<TraitInstance>>)>)
        ensures
            match r {
                Some(e) => {
                    let i = trait_position(self.view().traits, t@);
                    &&& 0 <= i < self.view().traits.len()
                    &&& self.view().traits[i] == TraitEntryView {
                        def: e.0.view(),
                        instances: instances_view(e.1@),
                    }
                },
                None => trait_position(self.view().traits, t@) == -1,
            },
    {
        match find_trait(&self.traits, t) {
            Some(i) => Some((share(&self.traits[i].0), copy_instances(&self.traits[i].1))),
            None => None,
        }
    }

    /// From now on every declaration is repeated in `s`.
    pub fn use_export(&mut self, s: Scope)
        ensures
            final(self).view() == (ScopeView {
                export: Some(Box::new(s.view())),
                ..old(self).view()
            }),
    {
        self.export = Some(Box::new(s));
    }

    /// From now on declarations are repeated nowhere. Returns the scope that
    /// they were repeated in.
    pub fn clear_export(&mut self) -> (r: Option<Scope>)
        ensures
            final(self).view() == (ScopeView { export: None, ..old(self).view() }),
            match r {
                Some(s) => old(self).view().export == Some(Box::new(s.view())),
                None => old(self).view().export is None,
            },
    {
        let mut sink: Option<Box<Scope>> = None;
        std::mem::swap(&mut sink, &mut self.export);
        match sink {
            Some(e) => Some(*e),
            None => None,
        }
    }

    /// Whether declarations are repeated in another scope.
    pub fn exports(&self) -> (r: bool)
        ensures
            r == self.view().export is Some,
    {
        self.export.is_some()
    }

    /// Copies everything that `s` holds into this scope.
    pub fn absorb(&mut self, s: &Scope)
        ensures
            final(self).view() == old(self).view().absorb(s.view()),
    {
        let ghost start = self.view();
        let mut i: usize = 0;
        let ghost src_structs = s.structs@;
        assert(defs_map(self.structs@) =~= start.structs.union_prefer_right(
            defs_map(src_structs.subrange(0, 0)),
        )) by {
            assert forall|k: Seq<char>| !bound(src_structs.subrange(0, 0), k) by {
                lemma_position(src_structs.subrange(0, 0), k);
            }
        }
        while i < s.structs.len()
            invariant
                i <= s.structs.len(),
                src_structs == s.structs@,
                defs_map(self.structs@) == start.structs.union_prefer_right(
                    defs_map(src_structs.subrange(0, i as int)),
                ),
                self.traits == old(self).traits,
                self.variables == old(self).variables,
                self.for_var == old(self).for_var,
                self.export == old(self).export,
            decreases s.structs.len() - i,
        {
            let ghost before = self.structs@;
            put(&mut self.structs, s.structs[i].0.clone(), share(&s.structs[i].1));
            proof {
                lemma_defs_put(before, self.structs@, src_structs[i as int].0@, src_structs[i as int].1);
                assert forall|k: Seq<char>|
                    #![trigger position(src_structs.subrange(0, i + 1), k)]
                    {
                        &&& bound(src_structs.subrange(0, i + 1), k) == (src_structs[i as int].0@
                            == k || bound(src_structs.subrange(0, i as int), k))
                        &&& lookup(src_structs.subrange(0, i + 1), k) == (if src_structs[i as int].0@
                            == k {
                            Some(src_structs[i as int].1)
                        } else {
                            lookup(src_structs.subrange(0, i as int), k)
                        })
                    } by {
                    lemma_prefix_push(src_structs, i as int, k);
                }
                assert(defs_map(self.structs@) =~= start.structs.union_prefer_right(
                    defs_map(src_structs.subrange(0, i + 1)),
                ));
            }
            i = i + 1;
        }
        assert(src_structs.subrange(0, src_structs.len() as int) =~= src_structs);
        let mut i: usize = 0;
        let ghost src_vars = s.variables@;
        assert(values_map(self.variables@) =~= start.variables.union_prefer_right(
            values_map(src_vars.subrange(0, 0)),
        )) by {
            assert forall|k: Seq<char>| !bound(src_vars.subrange(0, 0), k) by {
                lemma_position(src_vars.subrange(0, 0), k);
            }
        }
        while i < s.variables.len()
            invariant
                i <= s.variables.len(),
                src_vars == s.variables@,
                values_map(self.variables@) == start.variables.union_prefer_right(
                    values_map(src_vars.subrange(0, i as int)),
                ),
                defs_map(self.structs@) == start.structs.union_prefer_right(s.view().structs),
                self.traits == old(self).traits,
                self.for_var == old(self).for_var,
                self.export == old(self).export,
            decreases s.variables.len() - i,
        {
            let ghost before = self.variables@;
            put(&mut self.variables, s.variables[i].0.clone(), share(&s.variables[i].1));
            proof {
                lemma_values_put(before, self.variables@, src_vars[i as int].0@, src_vars[i as int].1);
                assert forall|k: Seq<char>|
                    #![trigger position(src_vars.subrange(0, i + 1), k)]
                    {
                        &&& bound(src_vars.subrange(0, i + 1), k) == (src_vars[i as int].0@ == k
                            || bound(src_vars.subrange(0, i as int), k))
                        &&& lookup(src_vars.subrange(0, i + 1), k) == (if src_vars[i as int].0@
                            == k {
                            Some(src_vars[i as int].1)
                        } else {
                            lookup(src_vars.subrange(0, i as int), k)
                        })
                    } by {
                    lemma_prefix_push(src_vars, i as int, k);
                }
                assert(values_map(self.variables@) =~= start.variables.union_prefer_right(
                    values_map(src_vars.subrange(0, i + 1)),
                ));
            }
            i = i + 1;
        }
        assert(src_vars.subrange(0, src_vars.len() as int) =~= src_vars);
        let mut i: usize = 0;
        let ghost src_traits = traits_view(s.traits@);
        while i < s.traits.len()
            invariant
                i <= s.traits.len(),
                src_traits == traits_view(s.traits@),
                traits_view(self.traits@) == absorb_traits(start.traits, src_traits, i as nat),
                values_map(self.variables@) == start.variables.union_prefer_right(
                    s.view().variables,
                ),
                defs_map(self.structs@) == start.structs.union_prefer_right(s.view().structs),
                self.for_var == old(self).for_var,
                self.export == old(self).export,
            decreases s.traits.len() - i,
        {
            put_trait_entry(&mut self.traits, share(&s.traits[i].0), copy_instances(&s.traits[i].1));
            i = i + 1;
        }
    }

    /// Copies what `s` knows under `name` into this scope: the variable, the
    /// struct and the trait of that name, each if there is one.
    pub fn absorb_named(&mut self, s: &Scope, name: &str)
        ensures
            final(self).view() == old(self).view().absorb_named(s.view(), name@),
    {
        proof {
            lemma_position(s.variables@, name@);
            lemma_position(s.structs@, name@);
            lemma_trait_position(s.view().traits, name@);
        }
        match find(&s.variables, name) {
            Some(i) => {
                let ghost before = self.variables@;
                put(&mut self.variables, name.to_owned(), share(&s.variables[i].1));
                proof {
                    lemma_values_put(before, self.variables@, name@, s.variables@[i as int].1);
                }
            },
            None => {},
        }
        match find(&s.structs, name) {
            Some(i) => {
                let ghost before = self.structs@;
                put(&mut self.structs, name.to_owned(), share(&s.structs[i].1));
                proof {
                    lemma_defs_put(before, self.structs@, name@, s.structs@[i as int].1);
                }
            },
            None => {},
        }
        match find_trait(&s.traits, name) {
            Some(i) => {
                put_trait_entry(
                    &mut self.traits,
                    share(&s.traits[i].0),
                    copy_instances(&s.traits[i].1),
                );
            },
            None => {},
        }
    }

    /// The variables of the scope, each once, with their values.
    pub fn list_var(&self) -> (r: Vec<(String, Arc<Value>)>)
        ensures
            forall|i: int|
                0 <= i < r@.len() ==> self.view().variables.contains_key((#[trigger] r@[i]).0@)
                    && self.view().variables[r@[i].0@] == r@[i].1.view(),
            forall|k: Seq<char>|
                self.view().variables.contains_key(k) ==> exists|i: int|
                    0 <= i < r@.len() && (#[trigger] r@[i]).0@ == k,
            forall|i: int, j: int|
                0 <= i < j < r@.len() ==> (#[trigger] r@[i]).0@ != (#[trigger] r@[j]).0@,
    {
        let mut out: Vec<(String, Arc<Value>)> = Vec::new();
        let ghost mut origin: Seq<int> = Seq::empty();
        let mut i: usize = 0;
        while i < self.variables.len()
            invariant
                i <= self.variables.len(),
                origin.len() == out@.len(),
                forall|k: int|
                    0 <= k < out@.len() ==> 0 <= #[trigger] origin[k] < i && out@[k]
                        == self.variables@[origin[k]] && position(
                        self.variables@,
                        self.variables@[origin[k]].0@,
                    ) == origin[k],
                forall|k: int, l: int| 0 <= k < l < out@.len() ==> origin[k] < origin[l],
                forall|j: int|
                    0 <= j < i && position(self.variables@, (#[trigger] self.variables@[j]).0@) == j
                        ==> exists|k: int| 0 <= k < out@.len() && #[trigger] origin[k] == j,
            decreases self.variables.len() - i,
        {
            proof {
                lemma_position(self.variables@, self.variables@[i as int].0@);
            }
            let ghost before_out = out@;
            let ghost before_origin = origin;
            match find(&self.variables, self.variables[i].0.as_str()) {
                Some(at) => {
                    if at == i {
                        out.push((self.variables[i].0.clone(), share(&self.variables[i].1)));
                        proof {
                            origin = origin.push(i as int);
                            assert forall|j: int|
                                0 <= j < i + 1 && position(
                                    self.variables@,
                                    (#[trigger] self.variables@[j]).0@,
                                ) == j implies exists|k: int|
                                0 <= k < out@.len() && #[trigger] origin[k] == j by {
                                if j < i {
                                    let k = choose|k: int|
                                        0 <= k < before_out.len() && #[trigger] before_origin[k]
                                            == j;
                                    assert(origin[k] == j);
                                } else {
                                    assert(origin[out@.len() - 1] == j);
                                }
                            }
                        }
                    }
                },
                None => {},
            }
            i = i + 1;
        }
        proof {
            assert forall|i: int| 0 <= i < out@.len() implies self.view().variables.contains_key(
                (#[trigger] out@[i]).0@,
            ) && self.view().variables[out@[i].0@] == out@[i].1.view() by {
                assert(0 <= origin[i] < self.variables@.len());
                assert(out@[i] == self.variables@[origin[i]]);
            }
            assert forall|k: Seq<char>| self.view().variables.contains_key(k) implies exists|i: int|
                0 <= i < out@.len() && (#[trigger] out@[i]).0@ == k by {
                lemma_position(self.variables@, k);
                let j = position(self.variables@, k);
                assert(self.variables@[j].0@ == k);
                let at = choose|at: int| 0 <= at < out@.len() && #[trigger] origin[at] == j;
                assert(out@[at].0@ == k);
            }
            assert forall|a: int, b: int| 0 <= a < b < out@.len() implies (#[trigger] out@[a]).0@ != (
            #[trigger] out@[b]).0@ by {
                assert(origin[a] < origin[b]);
            }
        }
        out
    }

    /// Gives the variable `var` the new value `value`. The variable must
    /// exist, and its value must be of the type of `value`. The scope that
    /// declarations are repeated in is left alone.
    pub fn assign(&mut self, var: &str, value: Value) -> (r: Result<(), Error>)
        ensures
            match r {
                Ok(_) => old(self).view().assign_error(var@, value.view()) is None
                    && final(self).view() == old(self).view().assign(var@, value.view()),
                Err(e) => old(self).view().assign_error(var@, value.view()) == Some(e.view())
                    && final(self).view() == old(self).view(),
            },
    {
        proof {
            lemma_position(self.variables@, var@);
        }
        let i = match find(&self.variables, var) {
            Some(i) => i,
            None => {
                return Err(
                    Error::anonymous(
                        ErrorKind::UndefinedVariable,
                        join3("No variable named ", var, " to re-assign to."),
                    ),
                );
            },
        };
        let existing = self.variables[i].1.type_of();
        if !self.matches_at(&existing, &value, self.trait_count()) {
            let actual = label_of(&value.type_of());
            let held = label_of(&existing);
            let mut message = join3("Can't assign value of type ", actual.as_str(), " to variable ");
            message.append(var);
            message.append(", which has type ");
            message.append(held.as_str());
            return Err(Error::anonymous(ErrorKind::TypeMismatch, message));
        }
        let ghost before = self.variables@;
        let shared = Arc::new(value);
        put(&mut self.variables, var.to_owned(), share(&shared));
        proof {
            lemma_values_put(before, self.variables@, var@, shared);
        }
        Ok(())
    }
}

} // verus!
