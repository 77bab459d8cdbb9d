//! What a prompt needs to know of a line while it is typed.

use vstd::prelude::*;
use vstd::string::*;
use vstd::utf8::{decode_utf8, encode_utf8, encode_utf8_decode_utf8, is_char_boundary};
use crate::text::{
    chars_of, has_prefix, lemma_bytes_of_joined, starts_with, text_from, trim, trimmed,
};

verus! {

/// Something that can show itself at the prompt.
pub trait ReplDisplay {
    /// The text shown.
    fn pretty_print(&self) -> String;
}

/// A completion offered for the line being typed.
#[derive(Debug, PartialEq, Eq)]
pub struct CommandHint(pub String);

/// Whether a line begins with a word after which no semicolon is added.
pub open spec fn opens_block(line: Seq<char>) -> bool {
    has_prefix(line, "struct"@) || has_prefix(line, "trait"@) || has_prefix(line, "fn"@)
        || has_prefix(line, "pub"@) || has_prefix(line, "local"@) || has_prefix(line, "impl"@)
        || has_prefix(line, "return"@)
}

/// Whether a semicolon is added to the line `i` before it is evaluated: to
/// every line but those that begin with `struct`, `trait`, `fn`, `pub`,
/// `local`, `impl` or `return`.
pub fn should_append_semicolon(i: &str) -> (r: bool)
    ensures
        r == !opens_block(i@),
{
    !(starts_with(i, "struct") || starts_with(i, "trait") || starts_with(i, "fn") || starts_with(
        i,
        "pub",
    ) || starts_with(i, "local") || starts_with(i, "impl") || starts_with(i, "return"))
}

/// Whether a word ends at the character.
pub open spec fn resets(c: char) -> bool {
    c == '(' || c == ',' || c == ';' || c == ' ' || c == '.'
}

/// The place after the last character among the first `n` at which a word
/// ends, 0 where there is none.
pub open spec fn word_start(line: Seq<char>, n: nat) -> nat
    decreases n,
{
    if n == 0 || n > line.len() {
        0
    } else if resets(line[n - 1]) {
        n
    } else {
        word_start(line, (n - 1) as nat)
    }
}

/// A word's start is within the line.
pub proof fn lemma_word_start(line: Seq<char>, n: nat)
    requires
        n <= line.len(),
    ensures
        word_start(line, n) <= n,
    decreases n,
{
    if n > 0 && !resets(line[n - 1]) {
        lemma_word_start(line, (n - 1) as nat);
    }
}

/// The word being typed at the end of `line`: what follows the last of `(`,
/// `,`, `;`, a space and `.`.
pub open spec fn word_of(line: Seq<char>) -> Seq<char> {
    line.subrange(word_start(line, line.len()) as int, line.len() as int)
}

/// The number of bytes of `line` before the word being typed.
pub open spec fn word_offset(line: Seq<char>) -> nat {
    encode_utf8(line.subrange(0, word_start(line, line.len()) as int)).len()
}

/// The word being typed at the end of `line`, and the number of bytes of the
/// line before it: the line's length less the word's, both in bytes.
pub fn get_snippet_from_line(line: &str) -> (r: (String, usize))
    ensures
        r.0@ == word_of(line@),
        r.1 == word_offset(line@),
        r.1 + encode_utf8(r.0@).len() == encode_utf8(line@).len(),
{
    let chars = chars_of(line);
    let mut buf: Vec<char> = Vec::new();
    let mut start: usize = 0;
    let mut i: usize = 0;
    assert(buf@ =~= chars@.subrange(0, 0));
    while i < chars.len()
        invariant
            i <= chars.len(),
            start == word_start(chars@, i as nat),
            start <= i,
            buf@ == chars@.subrange(start as int, i as int),
        decreases chars.len() - i,
    {
        let c = chars[i];
        i = i + 1;
        if c == '(' || c == ',' || c == ';' || c == ' ' || c == '.' {
            buf = Vec::new();
            start = i;
            assert(buf@ =~= chars@.subrange(start as int, i as int));
        } else {
            buf.push(c);
            assert(buf@ =~= chars@.subrange(start as int, i as int));
        }
    }
    let snip = text_from(&buf);
    proof {
        let before = line@.subrange(0, start as int);
        assert(line@ =~= before + snip@);
        lemma_bytes_of_joined(before, snip@);
    }
    let cut = line.as_bytes().len() - snip.as_str().as_bytes().len();
    (snip, cut)
}

/// At how many places two texts differ, among the first `n` places that both
/// have.
pub open spec fn differences(a: Seq<char>, b: Seq<char>, n: nat) -> nat
    decreases n,
{
    if n == 0 || n > a.len() || n > b.len() {
        0
    } else {
        differences(a, b, (n - 1) as nat) + (if a[n - 1] != b[n - 1] {
            1nat
        } else {
            0nat
        })
    }
}

/// The smaller of two lengths.
pub open spec fn shorter(a: Seq<char>, b: Seq<char>) -> nat {
    if a.len() < b.len() {
        a.len()
    } else {
        b.len()
    }
}

/// At how many places `a` differs from `b`, as far as both go.
pub open spec fn distance(a: Seq<char>, b: Seq<char>) -> nat {
    differences(a, b, shorter(a, b))
}

/// Counts the places at which two texts differ, as far as both go.
pub fn count_differences(a: &Vec<char>, b: &Vec<char>) -> (r: usize)
    ensures
        r == distance(a@, b@),
{
    let n = if a.len() < b.len() {
        a.len()
    } else {
        b.len()
    };
    let mut count: usize = 0;
    let mut i: usize = 0;
    while i < n
        invariant
            i <= n,
            n == shorter(a@, b@),
            count == differences(a@, b@, i as nat),
            count <= i,
        decreases n - i,
    {
        if a[i] != b[i] {
            count = count + 1;
        }
        i = i + 1;
    }
    count
}

/// Whether the candidate `i` is the one to offer for the word `snip` of
/// `line`: it begins with the word, no candidate that begins with the word
/// is nearer to the line, and none before it is as near.
pub open spec fn is_best(names: Seq<Seq<char>>, snip: Seq<char>, line: Seq<char>, i: int) -> bool {
    &&& 0 <= i < names.len()
    &&& has_prefix(names[i], snip)
    &&& forall|j: int|
        0 <= j < names.len() && has_prefix(#[trigger] names[j], snip) ==> distance(names[i], line)
            <= distance(names[j], line)
    &&& forall|j: int|
        0 <= j < i && has_prefix(#[trigger] names[j], snip) ==> distance(names[i], line) < distance(
            names[j],
            line,
        )
}

/// The texts of strings.
pub open spec fn names_view(names: Seq<String>) -> Seq<Seq<char>> {
    Seq::new(names.len(), |i: int| names[i]@)
}

/// The candidate to offer for the word `snip` of `line`: of those that begin
/// with the word, the first among the nearest to the line.
pub fn best_candidate(names: &Vec<String>, snip: &str, line: &str) -> (r: Option<usize>)
    ensures
        match r {
            Some(i) => is_best(names_view(names@), snip@, line@, i as int),
            None => forall|j: int|
                0 <= j < names@.len() ==> !has_prefix(#[trigger] names_view(names@)[j], snip@),
        },
{
    let typed = chars_of(line);
    let ghost views = names_view(names@);
    let mut best: Option<(usize, usize)> = None;
    let mut i: usize = 0;
    while i < names.len()
        invariant
            i <= names.len(),
            views == names_view(names@),
            typed@ == line@,
            match best {
                Some((at, d)) => {
                    &&& at < i
                    &&& d == distance(views[at as int], line@)
                    &&& has_prefix(views[at as int], snip@)
                    &&& forall|j: int|
                        0 <= j < i && has_prefix(#[trigger] views[j], snip@) ==> d <= distance(
                            views[j],
                            line@,
                        )
                    &&& forall|j: int|
                        0 <= j < at && has_prefix(#[trigger] views[j], snip@) ==> d < distance(
                            views[j],
                            line@,
                        )
                },
                None => forall|j: int| 0 <= j < i ==> !has_prefix(#[trigger] views[j], snip@),
            },
        decreases names.len() - i,
    {
        assert(views[i as int] == names@[i as int]@);
        if starts_with(names[i].as_str(), snip) {
            let candidate = chars_of(names[i].as_str());
            let d = count_differences(&candidate, &typed);
            match best {
                Some((_, least)) => {
                    if d < least {
                        best = Some((i, d));
                    }
                },
                None => {
                    best = Some((i, d));
                },
            }
        }
        i = i + 1;
    }
    match best {
        Some((at, _)) => Some(at),
        None => None,
    }
}

/// What is left of `text` from the byte `at` on.
pub open spec fn rest_from(text: Seq<char>, at: int) -> Seq<char> {
    decode_utf8(encode_utf8(text).subrange(at, encode_utf8(text).len() as int))
}

/// What is left of `text` from the byte `at` on, which must be where a
/// character starts or the text ends.
pub fn rest_of(text: &str, at: usize) -> (r: String)
    requires
        is_char_boundary(encode_utf8(text@), at as int),
    ensures
        r@ == rest_from(text@, at as int),
{
    let (_, rest) = text.split_at(at);
    proof {
        encode_utf8_decode_utf8(rest@);
    }
    rest.to_owned()
}

impl CommandHint {
    /// The hint without its first `strip_chars` bytes, which must end where
    /// a character starts or the hint ends.
    pub fn suffix(&self, strip_chars: usize) -> (r: CommandHint)
        requires
            is_char_boundary(encode_utf8(self.0@), strip_chars as int),
        ensures
            r.0@ == rest_from(self.0@, strip_chars as int),
    {
        CommandHint(rest_of(self.0.as_str(), strip_chars))
    }

    /// The hint's text.
    pub fn display(&self) -> (r: &str)
        ensures
            r@ == self.0@,
    {
        self.0.as_str()
    }

    /// The text that the hint completes the line with.
    pub fn completion(&self) -> (r: Option<&str>)
        ensures
            r matches Some(t) && t@ == self.0@,
    {
        Some(self.0.as_str())
    }
}

/// The words of the language that are offered besides the names in scope.
pub fn keywords() -> (r: Vec<String>)
    ensures
        names_view(r@) == seq!["let"@, "fn"@, "if"@, "else"@, "exit"@],
{
    let mut r: Vec<String> = Vec::new();
    r.push("let".to_owned());
    r.push("fn".to_owned());
    r.push("if".to_owned());
    r.push("else".to_owned());
    r.push("exit".to_owned());
    assert(names_view(r@) =~= seq!["let"@, "fn"@, "if"@, "else"@, "exit"@]);
    r
}

/// The best candidate is one alone.
pub proof fn lemma_best_is_one(
    names: Seq<Seq<char>>,
    snip: Seq<char>,
    line: Seq<char>,
    i: int,
    j: int,
)
    requires
        is_best(names, snip, line, i),
        is_best(names, snip, line, j),
    ensures
        i == j,
{
    if i < j {
        assert(has_prefix(names[i], snip));
    } else if j < i {
        assert(has_prefix(names[j], snip));
    }
}

/// What is offered for the line `line` with the cursor after `pos` bytes,
/// from the candidates `names`: nothing where the cursor is at the start or
/// the word being typed is blank; else the best candidate for the word, if
/// there is one, from as many bytes on as the cursor is past the start of the
/// word, if that is where a character of the candidate starts or the
/// candidate ends.
pub open spec fn hint_of(names: Seq<Seq<char>>, line: Seq<char>, pos: nat) -> Option<Seq<char>> {
    let cut = word_offset(line);
    let snip = word_of(line);
    if pos == 0 || trimmed(snip).len() == 0 || !exists|i: int| is_best(names, snip, line, i) {
        None
    } else {
        let best = choose|i: int| is_best(names, snip, line, i);
        if cut <= pos && is_char_boundary(encode_utf8(names[best]), pos - cut) {
            Some(rest_from(names[best], pos - cut))
        } else {
            None
        }
    }
}

/// The hint for the line `line` with the cursor after `pos` bytes, from the
/// candidates `names`.
pub fn hint(names: &Vec<String>, line: &str, pos: usize) -> (r: Option<CommandHint>)
    ensures
        match r {
            Some(h) => hint_of(names_view(names@), line@, pos as nat) == Some(h.0@),
            None => hint_of(names_view(names@), line@, pos as nat) is None,
        },
{
    let (snip, cut) = get_snippet_from_line(line);
    if pos == 0 || trim(snip.as_str()).unicode_len() == 0 {
        return None;
    }
    let ghost views = names_view(names@);
    match best_candidate(names, snip.as_str(), line) {
        None => {
            proof {
                assert forall|i: int| !is_best(views, snip@, line@, i) by {
                    if 0 <= i < views.len() {
                        assert(!has_prefix(views[i], snip@));
                    }
                }
            }
            None
        },
        Some(i) => {
            proof {
                let best = choose|k: int| is_best(views, snip@, line@, k);
                lemma_best_is_one(views, snip@, line@, i as int, best);
            }
            assert(views[i as int] == names@[i as int]@);
            if pos < cut {
                return None;
            }
            let name = names[i].as_str();
            if !name.is_char_boundary(pos - cut) {
                return None;
            }
            Some(CommandHint(rest_of(name, pos - cut)))
        },
    }
}

} // verus!
