//! What one run of the interpreter carries along: the scopes that modules
//! have exported, what was printed, and the clock's reading.

use vstd::prelude::*;
use std::sync::Arc;
use crate::assoc::{bound, find, lemma_position, lookup, position, put};
use crate::runtime::scope::{Scope, ScopeView};
use crate::text::share;

verus! {

/// The state of a run.
#[derive(Debug)]
pub struct Session {
    modules: Vec<(String, Arc<Scope>)>,
    output: Vec<String>,
    clock: u64,
    depth: usize,
}

/// The state of a run as a mathematical value: what each module has
/// exported, the lines printed, and the clock's reading in milliseconds since
/// the Unix epoch, as a number of the language.
pub ghost struct SessionView {
    pub modules: Map<Seq<char>, ScopeView>,
    pub output: Seq<Seq<char>>,
    pub clock: u64,
}

impl SessionView {
    /// The exported scope of the module `key`, empty where the module has
    /// exported nothing yet.
    pub open spec fn module(self, key: Seq<char>) -> ScopeView {
        if self.modules.contains_key(key) {
            self.modules[key]
        } else {
            ScopeView::empty()
        }
    }

    /// The run after `line` was printed.
    pub open spec fn print(self, line: Seq<char>) -> SessionView {
        SessionView { output: self.output.push(line), ..self }
    }

    /// The run after the module `key` has exported `scope`.
    pub open spec fn with_module(self, key: Seq<char>, scope: ScopeView) -> SessionView {
        SessionView { modules: self.modules.insert(key, scope), ..self }
    }
}

/// Exported scopes by module, as a map.
pub open spec fn modules_map(s: Seq<(String, Arc<Scope>)>) -> Map<Seq<char>, ScopeView> {
    Map::new(|k: Seq<char>| bound(s, k), |k: Seq<char>| s[position(s, k)].1.view())
}

/// The lines of text.
pub open spec fn lines_view(s: Seq<String>) -> Seq<Seq<char>> {
    Seq::new(s.len(), |i: int| s[i]@)
}

/// The nesting that a run allows where nothing else is asked for. It suits a
/// thread with a stack of two megabytes; a program that gives evaluation a
/// larger stack may allow more with `set_depth`.
pub const DEFAULT_DEPTH: usize = 384;

impl Session {
    pub closed spec fn view(&self) -> SessionView {
        SessionView {
            modules: modules_map(self.modules@),
            output: lines_view(self.output@),
            clock: self.clock,
        }
    }

    /// How deep expressions and calls may nest in this run.
    pub closed spec fn limit(&self) -> usize {
        self.depth
    }

    /// How deep expressions and calls may nest in this run.
    pub fn depth(&self) -> (r: usize)
        ensures
            r == self.limit(),
    {
        self.depth
    }

    /// The clock's reading.
    pub fn clock(&self) -> (r: u64)
        ensures
            r == self.view().clock,
    {
        self.clock
    }

    /// Sets how deep expressions and calls may nest.
    pub fn set_depth(&mut self, depth: usize)
        ensures
            final(self).view() == old(self).view(),
            final(self).limit() == depth,
    {
        self.depth = depth;
    }

    /// Sets the clock's reading.
    pub fn set_clock(&mut self, clock: u64)
        ensures
            final(self).view() == (SessionView { clock, ..old(self).view() }),
            final(self).limit() == old(self).limit(),
    {
        self.clock = clock;
    }

    /// A run in which nothing has happened yet, with the clock at zero.
    pub fn new() -> (r: Self)
        ensures
            r.view() == (SessionView { modules: Map::empty(), output: Seq::empty(), clock: 0 }),
            r.limit() == DEFAULT_DEPTH,
    {
        let r = Session { modules: Vec::new(), output: Vec::new(), clock: 0, depth: DEFAULT_DEPTH };
        proof {
            assert(r.view().modules =~= Map::empty());
            assert(r.view().output =~= Seq::empty());
        }
        r
    }

    /// The exported scope of the module `key`.
    pub fn module(&self, key: &str) -> (r: Option<Arc<Scope>>)
        ensures
            match r {
                Some(s) => self.view().modules.contains_key(key@) && self.view().modules[key@]
                    == s.view(),
                None => !self.view().modules.contains_key(key@),
            },
    {
        proof {
            lemma_position(self.modules@, key@);
        }
        match find(&self.modules, key) {
            Some(i) => Some(share(&self.modules[i].1)),
            None => None,
        }
    }

    /// Records `scope` as what the module `key` exports.
    pub fn set_module(&mut self, key: &str, scope: Scope)
        ensures
            final(self).view() == old(self).view().with_module(key@, scope.view()),
            final(self).limit() == old(self).limit(),
    {
        let ghost before = self.modules@;
        let shared = Arc::new(scope);
        put(&mut self.modules, key.to_owned(), share(&shared));
        proof {
            assert forall|k: Seq<char>| #[trigger]
                modules_map(self.modules@).dom().contains(k) == modules_map(before).insert(
                    key@,
                    shared.view(),
                ).dom().contains(k) by {
                assert(lookup(self.modules@, k) == lookup(self.modules@, k));
            }
            assert forall|k: Seq<char>| #[trigger]
                modules_map(self.modules@).dom().contains(k) implies modules_map(self.modules@)[k]
                == modules_map(before).insert(key@, shared.view())[k] by {
                assert(lookup(self.modules@, k) == lookup(self.modules@, k));
            }
            assert(modules_map(self.modules@) =~= modules_map(before).insert(key@, shared.view()));
        }
    }

    /// Records `line` as printed.
    pub fn print(&mut self, line: String)
        ensures
            final(self).view() == old(self).view().print(line@),
            final(self).limit() == old(self).limit(),
    {
        let ghost before = lines_view(self.output@);
        self.output.push(line);
        proof {
            assert(lines_view(self.output@) =~= before.push(line@));
        }
    }

    /// Hands out what was printed since the last call, oldest first.
    pub fn take_output(&mut self) -> (r: Vec<String>)
        ensures
            lines_view(r@) == old(self).view().output,
            final(self).view() == (SessionView { output: Seq::empty(), ..old(self).view() }),
            final(self).limit() == old(self).limit(),
    {
        let mut out: Vec<String> = Vec::new();
        std::mem::swap(&mut out, &mut self.output);
        proof {
            assert(lines_view(self.output@) =~= Seq::empty());
        }
        out
    }
}

} // verus!
