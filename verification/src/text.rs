//! Helpers on text: comparison, building and taking apart.

use vstd::prelude::*;
use vstd::string::*;
use vstd::utf8::{
    encode_utf8, encode_utf8_decode_utf8, encode_utf8_valid_utf8, is_char_boundary,
};
use std::sync::Arc;

verus! {

/// `Arc::clone`: one more handle to the same allocation, and so to an equal
/// value.
#[verifier::external_body]
pub(crate) fn share<T>(a: &Arc<T>) -> (r: Arc<T>)
    ensures
        r == *a,
{
    a.clone()
}

/// Whether two pieces of text hold the same characters.
pub fn same_text(a: &str, b: &str) -> (r: bool)
    ensures
        r == (a@ == b@),
{
    let x = a.as_bytes();
    let y = b.as_bytes();
    proof {
        encode_utf8_decode_utf8(a@);
        encode_utf8_decode_utf8(b@);
    }
    if x.len() != y.len() {
        return false;
    }
    let mut i: usize = 0;
    while i < x.len()
        invariant
            i <= x.len(),
            x.len() == y.len(),
            x@ == encode_utf8(a@),
            y@ == encode_utf8(b@),
            forall|k: int| 0 <= k < i ==> #[trigger] x@[k] == y@[k],
        decreases x.len() - i,
    {
        if x[i] != y[i] {
            return false;
        }
        i = i + 1;
    }
    assert(x@ =~= y@);
    true
}

/// The bytes of two texts, one after the other, are the bytes of the texts
/// joined.
pub proof fn lemma_bytes_of_joined(a: Seq<char>, b: Seq<char>)
    ensures
        encode_utf8(a + b) == encode_utf8(a) + encode_utf8(b),
    decreases a.len(),
{
    if a.len() == 0 {
        assert(a + b =~= b);
        assert(encode_utf8(a) + encode_utf8(b) =~= encode_utf8(b));
    } else {
        lemma_bytes_of_joined(a.drop_first(), b);
        assert((a + b).drop_first() =~= a.drop_first() + b);
        assert((a + b)[0] == a[0]);
        assert(encode_utf8(a + b) =~= encode_utf8(a) + encode_utf8(b));
    }
}

/// Where a character starts or the text ends is within the text.
pub proof fn lemma_boundary_within(text: Seq<char>, at: int)
    requires
        is_char_boundary(encode_utf8(text), at),
    ensures
        0 <= at <= encode_utf8(text).len(),
{
    encode_utf8_valid_utf8(text);
}

/// The concatenation of two pieces of text.
pub fn join2(a: &str, b: &str) -> (r: String)
    ensures
        r@ == a@ + b@,
{
    let mut s = a.to_owned();
    s.append(b);
    s
}

/// The concatenation of three pieces of text.
pub fn join3(a: &str, b: &str, c: &str) -> (r: String)
    ensures
        r@ == a@ + b@ + c@,
{
    let mut s = a.to_owned();
    s.append(b);
    s.append(c);
    s
}

/// The characters of a string, one by one.
pub fn chars_of(a: &str) -> (r: Vec<char>)
    ensures
        r@ == a@,
{
    let n = a.unicode_len();
    let mut v: Vec<char> = Vec::new();
    let mut i: usize = 0;
    while i < n
        invariant
            n == a@.len(),
            i <= n,
            v@ == a@.subrange(0, i as int),
        decreases n - i,
    {
        v.push(a.get_char(i));
        i = i + 1;
        assert(v@ =~= a@.subrange(0, i as int));
    }
    assert(a@.subrange(0, n as int) =~= a@);
    v
}

/// `String::from_iter` over characters: the string that holds exactly these
/// characters, in this order.
#[verifier::external_body]
pub(crate) fn text_from(chars: &Vec<char>) -> (r: String)
    ensures
        r@ == chars@,
{
    chars.iter().collect()
}

/// The text without the white space at its start and at its end.
pub uninterp spec fn trimmed(s: Seq<char>) -> Seq<char>;

/// `str::trim`: the text with leading and trailing white space removed, which
/// depends on the text alone.
#[verifier::external_body]
pub(crate) fn trim(s: &str) -> (r: &str)
    ensures
        r@ == trimmed(s@),
{
    s.trim()
}

/// Whether `s` begins with `prefix`.
pub open spec fn has_prefix(s: Seq<char>, prefix: Seq<char>) -> bool {
    prefix.len() <= s.len() && s.subrange(0, prefix.len() as int) == prefix
}

/// Whether `s` begins with `prefix`.
pub fn starts_with(s: &str, prefix: &str) -> (r: bool)
    ensures
        r == has_prefix(s@, prefix@),
{
    let n = s.unicode_len();
    let m = prefix.unicode_len();
    if m > n {
        return false;
    }
    let head = s.substring_char(0, m);
    same_text(head, prefix)
}

/// The text `s` without the occurrences of `pat` in it, found from the left
/// and not overlapping. An empty `pat` occurs nowhere.
pub open spec fn without(s: Seq<char>, pat: Seq<char>) -> Seq<char>
    decreases s.len(),
{
    if s.len() == 0 || pat.len() == 0 {
        s
    } else if has_prefix(s, pat) {
        without(s.subrange(pat.len() as int, s.len() as int), pat)
    } else {
        seq![s[0]] + without(s.subrange(1, s.len() as int), pat)
    }
}

/// Whether `pat` stands in `s` at the place `at`.
fn stands_at(s: &Vec<char>, pat: &Vec<char>, at: usize) -> (r: bool)
    requires
        at <= s.len(),
    ensures
        r == has_prefix(s@.subrange(at as int, s@.len() as int), pat@),
{
    if pat.len() > s.len() - at {
        return false;
    }
    let ghost tail = s@.subrange(at as int, s@.len() as int);
    let mut i: usize = 0;
    while i < pat.len()
        invariant
            i <= pat.len(),
            at + pat.len() <= s.len(),
            tail == s@.subrange(at as int, s@.len() as int),
            forall|k: int| 0 <= k < i ==> #[trigger] tail[k] == pat@[k],
        decreases pat.len() - i,
    {
        if s[at + i] != pat[i] {
            assert(tail[i as int] != pat@[i as int]);
            assert(tail.subrange(0, pat@.len() as int)[i as int] != pat@[i as int]);
            return false;
        }
        assert(tail[i as int] == s@[at + i]);
        i = i + 1;
    }
    assert(tail.subrange(0, pat@.len() as int) =~= pat@);
    true
}

/// Removes the occurrences of `pat` from `s`.
pub fn remove_all(s: &str, pat: &str) -> (r: String)
    ensures
        r@ == without(s@, pat@),
{
    let chars = chars_of(s);
    let pattern = chars_of(pat);
    if pattern.len() == 0 {
        return s.to_owned();
    }
    let mut out: Vec<char> = Vec::new();
    let mut i: usize = 0;
    assert(chars@.subrange(0, chars@.len() as int) =~= chars@);
    assert(out@ + without(chars@, pattern@) =~= without(chars@, pattern@));
    while i < chars.len()
        invariant
            i <= chars.len(),
            pattern@.len() > 0,
            without(chars@, pattern@) == out@ + without(
                chars@.subrange(i as int, chars@.len() as int),
                pattern@,
            ),
        decreases chars.len() - i,
    {
        let ghost tail = chars@.subrange(i as int, chars@.len() as int);
        let ghost before = out@;
        if stands_at(&chars, &pattern, i) {
            assert(tail.subrange(pattern@.len() as int, tail.len() as int) =~= chars@.subrange(
                i + pattern@.len(),
                chars@.len() as int,
            ));
            i = i + pattern.len();
        } else {
            out.push(chars[i]);
            assert(tail.subrange(1, tail.len() as int) =~= chars@.subrange(
                i + 1,
                chars@.len() as int,
            ));
            assert(before + (seq![tail[0]] + without(tail.subrange(1, tail.len() as int), pattern@))
                =~= out@ + without(tail.subrange(1, tail.len() as int), pattern@));
            i = i + 1;
        }
    }
    assert(out@ + without(chars@.subrange(i as int, chars@.len() as int), pattern@) =~= out@);
    text_from(&out)
}

/// What follows the first `n` characters of `s`.
pub fn skip(s: &str, n: usize) -> (r: String)
    requires
        n <= s@.len(),
    ensures
        r@ == s@.subrange(n as int, s@.len() as int),
{
    let len = s.unicode_len();
    s.substring_char(n, len).to_owned()
}

} // verus!
