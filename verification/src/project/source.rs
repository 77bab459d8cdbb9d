//! The source texts that a run has read, by path.

use vstd::prelude::*;
use std::sync::Arc;
use crate::assoc::{bound, find, lemma_position, lookup, position, put};
use crate::text::share;

verus! {

/// Source texts by path.
#[derive(Debug)]
pub struct SourceMap {
    sources: Vec<(String, Arc<String>)>,
}

/// Texts by path, as a map.
pub open spec fn texts_map(s: Seq<(String, Arc<String>)>) -> Map<Seq<char>, Seq<char>> {
    Map::new(|k: Seq<char>| bound(s, k), |k: Seq<char>| s[position(s, k)].1@)
}

impl SourceMap {
    pub closed spec fn view(&self) -> Map<Seq<char>, Seq<char>> {
        texts_map(self.sources@)
    }

    /// A map without sources.
    pub fn new() -> (r: Self)
        ensures
            r.view() == Map::<Seq<char>, Seq<char>>::empty(),
    {
        let r = SourceMap { sources: Vec::new() };
        proof {
            assert forall|k: Seq<char>| position(r.sources@, k) == -1 by {
                lemma_position(r.sources@, k);
            }
            assert(r.view() =~= Map::<Seq<char>, Seq<char>>::empty());
        }
        r
    }

    /// Records the text `s` as the source at the path `p`, in the place of
    /// what was recorded there before, and hands it back shared.
    pub fn add_source(&mut self, p: String, s: String) -> (r: Arc<String>)
        ensures
            final(self).view() == old(self).view().insert(p@, s@),
            r@ == s@,
    {
        let a = Arc::new(s);
        let ghost before = self.sources@;
        put(&mut self.sources, p, share(&a));
        proof {
            assert forall|k: Seq<char>| #[trigger]
                texts_map(self.sources@).dom().contains(k) == texts_map(before).insert(
                    p@,
                    s@,
                ).dom().contains(k) by {
                assert(lookup(self.sources@, k) == lookup(self.sources@, k));
            }
            assert forall|k: Seq<char>| #[trigger]
                texts_map(self.sources@).dom().contains(k) implies texts_map(self.sources@)[k]
                == texts_map(before).insert(p@, s@)[k] by {
                assert(lookup(self.sources@, k) == lookup(self.sources@, k));
            }
            assert(texts_map(self.sources@) =~= texts_map(before).insert(p@, s@));
        }
        a
    }

    /// The source recorded at the path `p`.
    pub fn get_source(&self, p: String) -> (r: Option<Arc<String>>)
        ensures
            match r {
                Some(s) => self.view().contains_key(p@) && self.view()[p@] == s@,
                None => !self.view().contains_key(p@),
            },
    {
        proof {
            lemma_position(self.sources@, p@);
        }
        match find(&self.sources, p.as_str()) {
            Some(i) => Some(share(&self.sources[i].1)),
            None => None,
        }
    }
}

} // verus!
