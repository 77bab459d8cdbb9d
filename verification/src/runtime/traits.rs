//! Traits and their implementations.

use vstd::prelude::*;
use std::sync::Arc;
use crate::assoc::{bound, find, lemma_position, position};
use crate::runtime::scope::Scope;
use crate::runtime::types::function::{Function, FunctionOutline, FunctionView, OutlineView};
use crate::runtime::types::{TypeView, Value, ValueType};
use crate::text::share;

verus! {

/// A named protocol: the outline of each method, the methods that have a
/// default, and the values it is open to. Where a method's name occurs
/// twice, the later entry counts.
#[derive(Debug)]
pub struct TraitDefinition {
    pub name: String,
    pub outlines: Vec<(String, FunctionOutline)>,
    pub functions: Vec<(String, Arc<Function>)>,
    pub restriction: Option<Box<ValueType>>,
}

/// One implementation of a trait, for the values that `restriction` accepts.
#[derive(Debug)]
pub struct TraitInstance {
    pub def: Arc<TraitDefinition>,
    pub overrides: Vec<(String, Arc<Function>)>,
    pub restriction: Box<ValueType>,
}

/// A trait as a mathematical value.
pub ghost struct TraitDefView {
    pub name: Seq<char>,
    pub outlines: Map<Seq<char>, OutlineView>,
    pub functions: Map<Seq<char>, FunctionView>,
    pub restriction: Option<TypeView>,
}

/// An implementation of a trait as a mathematical value.
pub ghost struct TraitInstanceView {
    pub def: TraitDefView,
    pub overrides: Map<Seq<char>, FunctionView>,
    pub restriction: TypeView,
}

/// Named functions as a map.
pub open spec fn functions_map(s: Seq<(String, Arc<Function>)>) -> Map<Seq<char>, FunctionView> {
    Map::new(|k: Seq<char>| bound(s, k), |k: Seq<char>| s[position(s, k)].1.view())
}

/// Named outlines as a map.
pub open spec fn outlines_map(s: Seq<(String, FunctionOutline)>) -> Map<Seq<char>, OutlineView> {
    Map::new(|k: Seq<char>| bound(s, k), |k: Seq<char>| s[position(s, k)].1.view())
}

impl TraitDefinition {
    pub open spec fn view(&self) -> TraitDefView {
        TraitDefView {
            name: self.name@,
            outlines: outlines_map(self.outlines@),
            functions: functions_map(self.functions@),
            restriction: match self.restriction {
                Some(r) => Some(r.view()),
                None => None,
            },
        }
    }
}

impl TraitInstanceView {
    /// The method `name`: the implementation's own where it has one, the
    /// trait's default otherwise.
    pub open spec fn get_function(self, name: Seq<char>) -> Option<FunctionView> {
        if self.overrides.contains_key(name) {
            Some(self.overrides[name])
        } else if self.def.functions.contains_key(name) {
            Some(self.def.functions[name])
        } else {
            None
        }
    }
}

impl TraitInstance {
    pub open spec fn view(&self) -> TraitInstanceView {
        TraitInstanceView {
            def: self.def.view(),
            overrides: functions_map(self.overrides@),
            restriction: self.restriction.view(),
        }
    }

    /// The method `name`: the implementation's own where it has one, the
    /// trait's default otherwise.
    pub fn get_function(&self, name: &str) -> (r: Option<Arc<Function>>)
        ensures
            match r {
                Some(f) => self.view().get_function(name@) == Some(f.view()),
                None => self.view().get_function(name@) is None,
            },
    {
        proof {
            lemma_position(self.overrides@, name@);
            lemma_position(self.def.functions@, name@);
        }
        match find(&self.overrides, name) {
            Some(i) => Some(share(&self.overrides[i].1)),
            None => match find(&self.def.functions, name) {
                Some(i) => Some(share(&self.def.functions[i].1)),
                None => None,
            },
        }
    }

    /// Whether the implementation is for `v`: the trait is open to it, and so
    /// is the implementation.
    pub fn matches(&self, v: &Value, s: &Scope) -> (r: bool)
        ensures
            r == s.view().instance_matches(self.view(), v.view()),
    {
        s.instance_matches_at(self, v, s.trait_count())
    }
}

} // verus!
