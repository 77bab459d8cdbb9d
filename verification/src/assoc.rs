//! Association lists: a `Vec` of named entries read as a map from names to
//! entries, in which a later entry of a name hides an earlier one.

use vstd::prelude::*;
use std::sync::Arc;
use crate::text::{same_text, share};

verus! {

/// The index of the last entry named `key`, or -1 where there is none.
pub open spec fn position<T>(s: Seq<(String, T)>, key: Seq<char>) -> int
    decreases s.len(),
{
    if s.len() == 0 {
        -1
    } else if s.last().0@ == key {
        s.len() - 1
    } else {
        position(s.drop_last(), key)
    }
}

/// Whether some entry is named `key`.
pub open spec fn bound<T>(s: Seq<(String, T)>, key: Seq<char>) -> bool {
    position(s, key) >= 0
}

/// The entry that `key` names.
pub open spec fn lookup<T>(s: Seq<(String, T)>, key: Seq<char>) -> Option<T> {
    if position(s, key) >= 0 {
        Some(s[position(s, key)].1)
    } else {
        None
    }
}

/// `position` is an index of an entry named `key` with no such entry after
/// it, or -1 where no entry has that name.
pub proof fn lemma_position<T>(s: Seq<(String, T)>, key: Seq<char>)
    ensures
        -1 <= position(s, key) < s.len(),
        position(s, key) >= 0 ==> s[position(s, key)].0@ == key,
        forall|j: int| position(s, key) < j < s.len() ==> (#[trigger] s[j]).0@ != key,
    decreases s.len(),
{
    if s.len() > 0 && s.last().0@ != key {
        lemma_position(s.drop_last(), key);
        assert forall|j: int| position(s, key) < j < s.len() implies (#[trigger] s[j]).0@
            != key by {
            if j < s.len() - 1 {
                assert(s[j] == s.drop_last()[j]);
            }
        }
    }
}

/// The last entry named `key` is at `position`.
pub proof fn lemma_position_is<T>(s: Seq<(String, T)>, key: Seq<char>, i: int)
    requires
        0 <= i < s.len(),
        s[i].0@ == key,
        forall|j: int| i < j < s.len() ==> (#[trigger] s[j]).0@ != key,
    ensures
        position(s, key) == i,
    decreases s.len(),
{
    if i < s.len() - 1 {
        assert(s.last() == s[s.len() - 1]);
        assert(s.drop_last()[i] == s[i]);
        assert forall|j: int| i < j < s.drop_last().len() implies (#[trigger] s.drop_last()[j]).0@
            != key by {
            assert(s.drop_last()[j] == s[j]);
        }
        lemma_position_is(s.drop_last(), key, i);
    }
}

/// Where no entry is named `key`, `position` is -1.
pub proof fn lemma_position_none<T>(s: Seq<(String, T)>, key: Seq<char>)
    requires
        forall|j: int| 0 <= j < s.len() ==> (#[trigger] s[j]).0@ != key,
    ensures
        position(s, key) == -1,
    decreases s.len(),
{
    if s.len() > 0 {
        assert(s.last() == s[s.len() - 1]);
        assert forall|j: int| 0 <= j < s.drop_last().len() implies (#[trigger] s.drop_last()[j]).0@
            != key by {
            assert(s.drop_last()[j] == s[j]);
        }
        lemma_position_none(s.drop_last(), key);
    }
}

/// A new last entry takes its name over and leaves the other names alone.
pub proof fn lemma_push<T>(s: Seq<(String, T)>, entry: (String, T), key: Seq<char>)
    ensures
        position(s.push(entry), key) == (if entry.0@ == key {
            s.len() as int
        } else {
            position(s, key)
        }),
        lookup(s.push(entry), key) == (if entry.0@ == key {
            Some(entry.1)
        } else {
            lookup(s, key)
        }),
{
    let t = s.push(entry);
    assert(t.drop_last() =~= s);
    assert(t.last() == entry);
    lemma_position(s, key);
}

/// Replacing an entry by one of the same name moves no name.
pub proof fn lemma_update<T>(s: Seq<(String, T)>, i: int, entry: (String, T), key: Seq<char>)
    requires
        0 <= i < s.len(),
        s[i].0@ == entry.0@,
    ensures
        position(s.update(i, entry), key) == position(s, key),
    decreases s.len(),
{
    let t = s.update(i, entry);
    if i == s.len() - 1 {
        assert(t.drop_last() =~= s.drop_last());
    } else {
        assert(t.drop_last() =~= s.drop_last().update(i, entry));
        assert(t.last() == s.last());
        if s.last().0@ != key {
            lemma_update(s.drop_last(), i, entry, key);
        }
    }
}

/// An entry's name is bound.
pub proof fn lemma_entry_bound<T>(s: Seq<(String, T)>, i: int)
    requires
        0 <= i < s.len(),
    ensures
        bound(s, s[i].0@),
        position(s, s[i].0@) >= i,
{
    lemma_position(s, s[i].0@);
}

/// A prefix of a list, grown by one entry.
pub proof fn lemma_prefix_push<T>(s: Seq<(String, T)>, i: int, key: Seq<char>)
    requires
        0 <= i < s.len(),
    ensures
        s.subrange(0, i + 1) == s.subrange(0, i).push(s[i]),
        position(s.subrange(0, i + 1), key) == (if s[i].0@ == key {
            i
        } else {
            position(s.subrange(0, i), key)
        }),
        bound(s.subrange(0, i + 1), key) == (s[i].0@ == key || bound(s.subrange(0, i), key)),
        lookup(s.subrange(0, i + 1), key) == (if s[i].0@ == key {
            Some(s[i].1)
        } else {
            lookup(s.subrange(0, i), key)
        }),
{
    assert(s.subrange(0, i + 1) =~= s.subrange(0, i).push(s[i]));
    lemma_push(s.subrange(0, i), s[i], key);
    lemma_position(s.subrange(0, i), key);
}

/// A copy of a list of shared entries.
pub fn copy_entries<T>(v: &Vec<(String, Arc<T>)>) -> (r: Vec<(String, Arc<T>)>)
    ensures
        r@ == v@,
{
    let mut r: Vec<(String, Arc<T>)> = Vec::new();
    let mut i: usize = 0;
    while i < v.len()
        invariant
            i <= v.len(),
            r@ == v@.subrange(0, i as int),
        decreases v.len() - i,
    {
        r.push((v[i].0.clone(), share(&v[i].1)));
        i = i + 1;
        assert(r@ =~= v@.subrange(0, i as int));
    }
    assert(v@.subrange(0, v.len() as int) =~= v@);
    r
}

/// Finds the entry that `key` names.
pub fn find<T>(v: &Vec<(String, T)>, key: &str) -> (r: Option<usize>)
    ensures
        match r {
            Some(i) => i as int == position(v@, key@),
            None => position(v@, key@) == -1,
        },
{
    let mut i: usize = v.len();
    while i > 0
        invariant
            i <= v.len(),
            forall|j: int| i <= j < v.len() ==> (#[trigger] v@[j]).0@ != key@,
        decreases i,
    {
        i = i - 1;
        if same_text(v[i].0.as_str(), key) {
            proof {
                lemma_position_is(v@, key@, i as int);
            }
            return Some(i);
        }
    }
    proof {
        lemma_position_none(v@, key@);
    }
    None
}

/// Binds `key` to `value`: in place where the name is bound already, at the
/// end otherwise.
pub fn put<T>(v: &mut Vec<(String, T)>, key: String, value: T)
    ensures
        forall|k: Seq<char>|
            #![trigger position(final(v)@, k)]
            #![trigger lookup(final(v)@, k)]
            {
                &&& lookup(final(v)@, k) == (if k == key@ {
                    Some(value)
                } else {
                    lookup(old(v)@, k)
                })
                &&& bound(final(v)@, k) == (k == key@ || bound(old(v)@, k))
            },
        bound(old(v)@, key@) ==> final(v)@ == old(v)@.update(
            position(old(v)@, key@),
            (key, value),
        ),
        !bound(old(v)@, key@) ==> final(v)@ == old(v)@.push((key, value)),
{
    let found = find(v, key.as_str());
    let ghost before = v@;
    let ghost entry = (key, value);
    proof {
        lemma_position(before, entry.0@);
    }
    match found {
        Some(i) => {
            v.set(i, (key, value));
        },
        None => {
            v.push((key, value));
        },
    }
    proof {
        lemma_position(before, entry.0@);
        assert forall|k: Seq<char>|
            #![trigger position(v@, k)]
            #![trigger lookup(v@, k)]
            {
                &&& lookup(v@, k) == (if k == entry.0@ {
                    Some(entry.1)
                } else {
                    lookup(before, k)
                })
                &&& bound(v@, k) == (k == entry.0@ || bound(before, k))
            } by {
            lemma_position(before, k);
            if position(before, entry.0@) >= 0 {
                lemma_update(before, position(before, entry.0@), entry, k);
            } else {
                lemma_push(before, entry, k);
            }
        }
    }
}

} // verus!
