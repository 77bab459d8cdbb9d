//! Packages and their versions.

use vstd::prelude::*;
use vstd::string::*;
use vstd::utf8::{decode_utf8, encode_utf8, encode_utf8_decode_utf8, is_char_boundary};
use crate::errors::{anonymous_error, Error, ErrorKind};
use crate::project::paths::{
    file_name_of, file_stem_of, join_path, maybe_text, parent_of, path_equal, path_file_name,
    path_file_stem, path_join, path_parent, same_path,
};
use crate::text::{chars_of, join2, join3, same_text, text_from};

pub mod flat;
pub mod paths;
pub mod source;

verus! {

/// A version: three numbers and, after a hyphen, a label.
#[derive(Debug)]
pub struct Semver {
    numerals: (u16, u16, u16),
    label: Option<String>,
}

/// How far a dependency may move from the version that was asked for.
#[derive(Debug, Clone, Copy, PartialEq, Eq, Structural)]
pub enum SemverMode {
    Strict,
    UpdatePatch,
    UpdateFeature,
    UpdateMajor,
}

/// A dependency: a package's name, a version, and how far from it the
/// dependency may move.
#[derive(Debug)]
pub struct SemverPackage(String, Semver, SemverMode);

/// A package as its manifest describes it, and the folder it was found in.
#[derive(Debug)]
pub struct Package {
    pub name: String,
    pub version: String,
    pub dependencies: Vec<SemverPackage>,
    pub main: String,
    pub disk_path: String,
}

/// A version as a mathematical value.
pub ghost struct SemverView {
    pub numerals: (u16, u16, u16),
    pub label: Option<Seq<char>>,
}

/// The value of a decimal digit, nothing for any other character.
pub open spec fn digit_of(c: char) -> Option<nat> {
    if '0' <= c <= '9' {
        Some((c as u32 - '0' as u32) as nat)
    } else {
        None
    }
}

/// Whether the first `n` characters of `s` are decimal digits.
pub open spec fn all_digits(s: Seq<char>, n: nat) -> bool
    decreases n,
{
    if n == 0 || n > s.len() {
        true
    } else {
        all_digits(s, (n - 1) as nat) && digit_of(s[n - 1]) is Some
    }
}

/// The number that the first `n` characters of `s` write in decimal.
pub open spec fn decimal(s: Seq<char>, n: nat) -> nat
    decreases n,
{
    if n == 0 || n > s.len() {
        0
    } else {
        decimal(s, (n - 1) as nat) * 10 + (match digit_of(s[n - 1]) {
            Some(d) => d,
            None => 0,
        })
    }
}

/// The number that `s` writes: one or more decimal digits, after a plus sign
/// or without one, for a number below 65536.
pub open spec fn number_of(s: Seq<char>) -> Option<u16> {
    let digits = if s.len() > 0 && s[0] == '+' {
        s.subrange(1, s.len() as int)
    } else {
        s
    };
    if digits.len() > 0 && all_digits(digits, digits.len()) && decimal(digits, digits.len()) <= u16::MAX {
        Some(decimal(digits, digits.len()) as u16)
    } else {
        None
    }
}

/// The place of the first `c` among the first `n` characters of `s`, or -1
/// where it is not among them.
pub open spec fn first_of(s: Seq<char>, c: char, n: nat) -> int
    decreases n,
{
    if n == 0 || n > s.len() {
        -1
    } else if first_of(s, c, (n - 1) as nat) >= 0 {
        first_of(s, c, (n - 1) as nat)
    } else if s[n - 1] == c {
        n - 1
    } else {
        -1
    }
}

/// The first `c` among the first `n` characters is where no `c` comes before.
pub proof fn lemma_first_of(s: Seq<char>, c: char, n: nat)
    requires
        n <= s.len(),
    ensures
        -1 <= first_of(s, c, n) < n,
        first_of(s, c, n) >= 0 ==> s[first_of(s, c, n)] == c,
        forall|j: int|
            0 <= j < n && (first_of(s, c, n) < 0 || j < first_of(s, c, n)) ==> #[trigger] s[j] != c,
    decreases n,
{
    if n > 0 {
        lemma_first_of(s, c, (n - 1) as nat);
    }
}

/// Where `c` stands at `i` and nowhere before, `i` is the first place of `c`.
pub proof fn lemma_first_of_is(s: Seq<char>, c: char, i: int, n: nat)
    requires
        0 <= i < n <= s.len(),
        s[i] == c,
        forall|j: int| 0 <= j < i ==> #[trigger] s[j] != c,
    ensures
        first_of(s, c, n) == i,
    decreases n,
{
    lemma_first_of(s, c, (n - 1) as nat);
    if n - 1 > i {
        lemma_first_of_is(s, c, i, (n - 1) as nat);
    }
}

/// Where `c` stands nowhere, it has no first place.
pub proof fn lemma_first_of_none(s: Seq<char>, c: char, n: nat)
    requires
        n <= s.len(),
        forall|j: int| 0 <= j < n ==> #[trigger] s[j] != c,
    ensures
        first_of(s, c, n) == -1,
    decreases n,
{
    if n > 0 {
        lemma_first_of_none(s, c, (n - 1) as nat);
    }
}

/// The place of the first `c` in `s` from `from` on.
pub fn find_char(s: &Vec<char>, c: char, from: usize, to: usize) -> (r: Option<usize>)
    requires
        from <= to <= s.len(),
    ensures
        match r {
            Some(i) => from <= i < to && first_of(
                s@.subrange(from as int, to as int),
                c,
                (to - from) as nat,
            ) == i - from,
            None => first_of(s@.subrange(from as int, to as int), c, (to - from) as nat) == -1,
        },
{
    let ghost part = s@.subrange(from as int, to as int);
    let mut i: usize = from;
    while i < to
        invariant
            from <= i <= to <= s.len(),
            part == s@.subrange(from as int, to as int),
            forall|j: int| 0 <= j < i - from ==> #[trigger] part[j] != c,
        decreases to - i,
    {
        if s[i] == c {
            proof {
                assert(part[i - from] == c);
                lemma_first_of_is(part, c, i - from, (to - from) as nat);
            }
            return Some(i);
        }
        assert(part[i - from] == s@[i as int]);
        i = i + 1;
    }
    proof {
        lemma_first_of_none(part, c, (to - from) as nat);
    }
    None
}

/// The parts of `s` between the characters `sep`.
pub open spec fn split(s: Seq<char>, sep: char) -> Seq<Seq<char>>
    decreases s.len(),
{
    let i = first_of(s, sep, s.len());
    if 0 <= i < s.len() {
        seq![s.subrange(0, i)] + split(s.subrange(i + 1, s.len() as int), sep)
    } else {
        seq![s]
    }
}

/// Whether each of the first `n` of `parts` writes a number.
pub open spec fn all_numbers(parts: Seq<Seq<char>>, n: nat) -> bool
    decreases n,
{
    if n == 0 || n > parts.len() {
        true
    } else {
        all_numbers(parts, (n - 1) as nat) && number_of(parts[n - 1]) is Some
    }
}

/// The version that `s` writes: three numbers with dots between and, after
/// the first hyphen, a label; or what is wrong with `s`.
pub open spec fn semver_of(s: Seq<char>) -> Result<SemverView, Seq<char>> {
    let dash = first_of(s, '-', s.len());
    let sem = if 0 <= dash < s.len() {
        s.subrange(0, dash)
    } else {
        s
    };
    let label = if 0 <= dash < s.len() {
        Some(s.subrange(dash + 1, s.len() as int))
    } else {
        None
    };
    let parts = split(sem, '.');
    if !all_numbers(parts, parts.len()) {
        Err("Invalid digit in semver"@)
    } else if parts.len() != 3 {
        Err("Expected three numbers in semver"@)
    } else {
        Ok(
            SemverView {
                numerals: (
                    number_of(parts[0])->Some_0,
                    number_of(parts[1])->Some_0,
                    number_of(parts[2])->Some_0,
                ),
                label,
            },
        )
    }
}

/// Whether parts are all numbers depends on the parts alone.
pub proof fn lemma_all_numbers_prefix(parts: Seq<Seq<char>>, before: Seq<Seq<char>>)
    requires
        before.len() <= parts.len(),
        forall|k: int| 0 <= k < before.len() ==> #[trigger] parts[k] == before[k],
    ensures
        all_numbers(parts, before.len()) == all_numbers(before, before.len()),
{
    lemma_all_numbers_same(parts, before, before.len());
}

/// Whether the first `n` parts are all numbers depends on those parts alone.
pub proof fn lemma_all_numbers_same(a: Seq<Seq<char>>, b: Seq<Seq<char>>, n: nat)
    requires
        n <= a.len(),
        n <= b.len(),
        forall|k: int| 0 <= k < n ==> #[trigger] a[k] == b[k],
    ensures
        all_numbers(a, n) == all_numbers(b, n),
    decreases n,
{
    if n > 0 {
        lemma_all_numbers_same(a, b, (n - 1) as nat);
    }
}

/// Once a part writes no number, no longer list of parts is all numbers.
pub proof fn lemma_not_numbers(parts: Seq<Seq<char>>, n: nat, m: nat)
    requires
        n <= m <= parts.len(),
        !all_numbers(parts, n),
    ensures
        !all_numbers(parts, m),
    decreases m,
{
    if n < m {
        lemma_not_numbers(parts, n, (m - 1) as nat);
    }
}

/// Reads a number of a version.
pub fn parse_number(s: &Vec<char>, from: usize, to: usize) -> (r: Option<u16>)
    requires
        from <= to <= s.len(),
    ensures
        r == number_of(s@.subrange(from as int, to as int)),
{
    let ghost whole = s@.subrange(from as int, to as int);
    let start: usize = if from < to && s[from] == '+' {
        from + 1
    } else {
        from
    };
    let ghost digits = s@.subrange(start as int, to as int);
    proof {
        if from < to && s@[from as int] == '+' {
            assert(whole[0] == '+');
            assert(whole.subrange(1, whole.len() as int) =~= digits);
        } else {
            if from < to {
                assert(whole[0] == s@[from as int]);
            }
            assert(whole =~= digits);
        }
    }
    let ghost goal = number_of(whole);
    assert(goal == (if digits.len() > 0 && all_digits(digits, digits.len()) && decimal(
        digits,
        digits.len(),
    ) <= u16::MAX {
        Some(decimal(digits, digits.len()) as u16)
    } else {
        None
    }));
    if start == to {
        return None;
    }
    let mut value: u32 = 0;
    let mut i: usize = start;
    while i < to
        invariant
            start <= i <= to <= s.len(),
            digits == s@.subrange(start as int, to as int),
            goal == number_of(s@.subrange(from as int, to as int)),
            goal == (if digits.len() > 0 && all_digits(digits, digits.len()) && decimal(
                digits,
                digits.len(),
            ) <= u16::MAX {
                Some(decimal(digits, digits.len()) as u16)
            } else {
                None
            }),
            all_digits(digits, (i - start) as nat),
            value == decimal(digits, (i - start) as nat),
            value <= u16::MAX,
        decreases to - i,
    {
        let c = s[i];
        assert(digits[i - start] == c);
        if c < '0' || c > '9' {
            proof {
                lemma_not_digits(digits, (i - start + 1) as nat, digits.len());
            }
            return None;
        }
        let d: u32 = c as u32 - '0' as u32;
        let next: u32 = value * 10 + d;
        if next > u16::MAX as u32 {
            proof {
                lemma_decimal_grows(digits, (i - start + 1) as nat, digits.len());
            }
            return None;
        }
        value = next;
        i = i + 1;
    }
    Some(value as u16)
}

/// Once a character is no digit, no longer prefix is all digits.
pub proof fn lemma_not_digits(s: Seq<char>, n: nat, m: nat)
    requires
        n <= m <= s.len(),
        !all_digits(s, n),
    ensures
        !all_digits(s, m),
    decreases m,
{
    if n < m {
        lemma_not_digits(s, n, (m - 1) as nat);
    }
}

/// A longer prefix writes no smaller number.
pub proof fn lemma_decimal_grows(s: Seq<char>, n: nat, m: nat)
    requires
        n <= m <= s.len(),
    ensures
        decimal(s, n) <= decimal(s, m),
    decreases m,
{
    if n < m {
        lemma_decimal_grows(s, n, (m - 1) as nat);
    }
}

/// The text for a decimal digit.
pub open spec fn digit_text(d: nat) -> Seq<char> {
    seq![(('0' as u32 + d) as u8) as char]
}

/// A number written in decimal.
pub open spec fn decimal_text(n: nat) -> Seq<char>
    decreases n,
{
    if n < 10 {
        digit_text(n)
    } else {
        decimal_text(n / 10) + digit_text(n % 10)
    }
}

/// Writes a number in decimal.
pub fn write_number(n: u16) -> (r: String)
    ensures
        r@ == decimal_text(n as nat),
{
    let mut digits: Vec<char> = Vec::new();
    let mut rest: u16 = n;
    digits.push((('0' as u8) + (rest % 10) as u8) as char);
    rest = rest / 10;
    assert(digits@ =~= digit_text((n % 10) as nat));
    while rest > 0
        invariant
            decimal_text(n as nat) == (if rest > 0 {
                decimal_text(rest as nat) + digits@
            } else {
                digits@
            }),
        decreases rest,
    {
        let ghost before = digits@;
        let d = (('0' as u8) + (rest % 10) as u8) as char;
        digits.insert(0, d);
        proof {
            assert(digits@ =~= digit_text((rest % 10) as nat) + before);
            if rest >= 10 {
                assert(decimal_text(rest as nat) == decimal_text((rest / 10) as nat) + digit_text(
                    (rest % 10) as nat,
                ));
                assert(decimal_text(n as nat) =~= decimal_text((rest / 10) as nat) + digits@);
            } else {
                assert(decimal_text(rest as nat) == digit_text(rest as nat));
                assert(decimal_text(n as nat) =~= digits@);
            }
        }
        rest = rest / 10;
    }
    text_from(&digits)
}

impl SemverMode {
    /// The sign of the mode.
    pub open spec fn sign(self) -> Seq<char> {
        match self {
            SemverMode::Strict => "="@,
            SemverMode::UpdatePatch => "~"@,
            SemverMode::UpdateFeature => "^"@,
            SemverMode::UpdateMajor => "*"@,
        }
    }

    /// The mode that a sign stands for: `^`, `~` or `=`.
    pub open spec fn of_sign(s: Seq<char>) -> Option<SemverMode> {
        if s == "^"@ {
            Some(SemverMode::UpdateFeature)
        } else if s == "~"@ {
            Some(SemverMode::UpdatePatch)
        } else if s == "="@ {
            Some(SemverMode::Strict)
        } else {
            None
        }
    }

    /// Reads a mode from its sign.
    pub fn from_str(s: &str) -> (r: Result<Self, Error>)
        ensures
            match r {
                Ok(mode) => SemverMode::of_sign(s@) == Some(mode),
                Err(e) => SemverMode::of_sign(s@) is None && e.view() == anonymous_error(
                    ErrorKind::Other,
                    "Unknown semver match mode '"@ + s@ + "'"@,
                ),
            },
    {
        if same_text(s, "^") {
            Ok(SemverMode::UpdateFeature)
        } else if same_text(s, "~") {
            Ok(SemverMode::UpdatePatch)
        } else if same_text(s, "=") {
            Ok(SemverMode::Strict)
        } else {
            Err(Error::anonymous(ErrorKind::Other, join3("Unknown semver match mode '", s, "'")))
        }
    }

    /// The sign of the mode.
    pub fn to_string(&self) -> (r: String)
        ensures
            r@ == self.sign(),
    {
        match self {
            SemverMode::Strict => "=".to_owned(),
            SemverMode::UpdatePatch => "~".to_owned(),
            SemverMode::UpdateFeature => "^".to_owned(),
            SemverMode::UpdateMajor => "*".to_owned(),
        }
    }
}

impl SemverView {
    /// The version written out: the three numbers with dots between, then a
    /// hyphen and the label where there is one.
    pub open spec fn text(self) -> Seq<char> {
        decimal_text(self.numerals.0 as nat) + "."@ + decimal_text(self.numerals.1 as nat) + "."@
            + decimal_text(self.numerals.2 as nat) + (match self.label {
            Some(l) => "-"@ + l,
            None => Seq::<char>::empty(),
        })
    }
}

impl Semver {
    pub closed spec fn view(&self) -> SemverView {
        SemverView {
            numerals: self.numerals,
            label: match self.label {
                Some(l) => Some(l@),
                None => None,
            },
        }
    }

    /// Reads a version: three numbers with dots between and, after the first
    /// hyphen, a label.
    pub fn from_str(s: &str) -> (r: Result<Self, Error>)
        ensures
            match r {
                Ok(v) => semver_of(s@) == Ok::<SemverView, Seq<char>>(v.view()),
                Err(e) => semver_of(s@) is Err && e.view() == anonymous_error(
                    ErrorKind::Other,
                    semver_of(s@)->Err_0,
                ),
            },
    {
        let chars = chars_of(s);
        assert(chars@.subrange(0, chars@.len() as int) =~= chars@);
        let dash = find_char(&chars, '-', 0, chars.len());
        let end: usize = match dash {
            Some(d) => d,
            None => chars.len(),
        };
        let label = match dash {
            Some(d) => {
                let mut rest: Vec<char> = Vec::new();
                let mut i: usize = d + 1;
                while i < chars.len()
                    invariant
                        d + 1 <= i <= chars.len(),
                        rest@ == chars@.subrange(d + 1, i as int),
                    decreases chars.len() - i,
                {
                    rest.push(chars[i]);
                    i = i + 1;
                    assert(rest@ =~= chars@.subrange(d + 1, i as int));
                }
                Some(text_from(&rest))
            },
            None => None,
        };
        let ghost sem = chars@.subrange(0, end as int);
        let ghost parts = split(sem, '.');
        let mut numbers: Vec<u16> = Vec::new();
        let mut valid = true;
        let mut start: usize = 0;
        let ghost mut done: Seq<Seq<char>> = Seq::empty();
        assert(sem.subrange(0, sem.len() as int) =~= sem);
        assert(parts =~= done + split(sem.subrange(0, end as int), '.'));
        loop
            invariant_except_break
                start <= end <= chars.len(),
                sem == chars@.subrange(0, end as int),
                parts == split(sem, '.'),
                parts == done + split(sem.subrange(start as int, end as int), '.'),
                valid == all_numbers(done, done.len()),
                valid ==> numbers@.len() == done.len() && forall|k: int|
                    0 <= k < done.len() ==> number_of(#[trigger] done[k]) == Some(numbers@[k]),
            ensures
                valid == all_numbers(parts, parts.len()),
                valid ==> numbers@.len() == parts.len() && forall|k: int|
                    0 <= k < parts.len() ==> number_of(#[trigger] parts[k]) == Some(numbers@[k]),
            decreases end - start,
        {
            let ghost tail = sem.subrange(start as int, end as int);
            assert(tail =~= chars@.subrange(start as int, end as int));
            let dot = find_char(&chars, '.', start, end);
            let stop: usize = match dot {
                Some(d) => d,
                None => end,
            };
            assert(chars@.subrange(start as int, stop as int) =~= tail.subrange(
                0,
                stop - start,
            ));
            let number = parse_number(&chars, start, stop);
            let ghost part = tail.subrange(0, stop - start);
            let ghost before = done;
            proof {
                done = done.push(part);
                if valid {
                    assert(all_numbers(done, done.len()) == (number is Some)) by {
                        assert(done.drop_last() =~= before);
                        lemma_all_numbers_prefix(done, before);
                    }
                } else {
                    lemma_all_numbers_prefix(done, before);
                    lemma_not_numbers(done, before.len(), done.len());
                }
            }
            match number {
                Some(n) => {
                    if valid {
                        numbers.push(n);
                    }
                },
                None => {
                    valid = false;
                },
            }
            match dot {
                Some(d) => {
                    proof {
                        assert(split(tail, '.') == seq![part] + split(
                            tail.subrange(d - start + 1, tail.len() as int),
                            '.',
                        ));
                        assert(tail.subrange(d - start + 1, tail.len() as int) =~= sem.subrange(
                            d + 1,
                            end as int,
                        ));
                        assert(before + (seq![part] + split(sem.subrange(d + 1, end as int), '.'))
                            =~= done + split(sem.subrange(d + 1, end as int), '.'));
                    }
                    start = d + 1;
                },
                None => {
                    proof {
                        assert(part =~= tail);
                        assert(split(tail, '.') == seq![tail]);
                        assert(parts =~= done);
                    }
                    break;
                },
            }
        }
        if !valid {
            return Err(Error::anonymous(ErrorKind::Other, "Invalid digit in semver".to_owned()));
        }
        if numbers.len() != 3 {
            return Err(
                Error::anonymous(ErrorKind::Other, "Expected three numbers in semver".to_owned()),
            );
        }
        Ok(Semver { numerals: (numbers[0], numbers[1], numbers[2]), label })
    }

    /// The version written out.
    pub fn to_string(&self) -> (r: String)
        ensures
            r@ == self.view().text(),
    {
        let mut out = write_number(self.numerals.0);
        out.append(".");
        let feature = write_number(self.numerals.1);
        out.append(feature.as_str());
        out.append(".");
        let patch = write_number(self.numerals.2);
        out.append(patch.as_str());
        match &self.label {
            Some(l) => {
                out.append("-");
                out.append(l.as_str());
                assert(out@ =~= self.view().text());
            },
            None => {
                assert(out@ =~= self.view().text());
            },
        }
        out
    }

    /// The three numbers of the version.
    pub fn numerals(&self) -> (r: (u16, u16, u16))
        ensures
            r == self.view().numerals,
    {
        self.numerals
    }

    /// A copy of the version.
    pub fn clone(&self) -> (r: Self)
        ensures
            r.view() == self.view(),
    {
        Semver {
            numerals: self.numerals,
            label: match &self.label {
                Some(l) => Some(l.clone()),
                None => None,
            },
        }
    }
}

impl SemverPackage {
    /// The package's name.
    pub closed spec fn name_spec(&self) -> Seq<char> {
        self.0@
    }

    /// The version asked for.
    pub closed spec fn version_spec(&self) -> SemverView {
        self.1.view()
    }

    /// How far the dependency may move from that version.
    pub closed spec fn mode_spec(&self) -> SemverMode {
        self.2
    }

    /// A dependency on the package `name`.
    pub fn new(name: String, version: Semver, mode: SemverMode) -> (r: Self)
        ensures
            r.name_spec() == name@,
            r.version_spec() == version.view(),
            r.mode_spec() == mode,
    {
        SemverPackage(name, version, mode)
    }

    /// The package's name.
    pub fn name(&self) -> (r: String)
        ensures
            r@ == self.name_spec(),
    {
        self.0.clone()
    }

    /// The version asked for, and how far the dependency may move from it.
    pub fn semver(&self) -> (r: (Semver, SemverMode))
        ensures
            r.0.view() == self.version_spec(),
            r.1 == self.mode_spec(),
    {
        (self.1.clone(), self.2)
    }

    /// Reads a dependency: a name, `@`, two bytes for the mode, and a
    /// version.
    pub fn from_str(s: &str) -> (r: Result<Self, Error>)
        ensures
            match r {
                Ok(p) => package_of(s@) == Ok::<SemverPackageView, Seq<char>>(p.view()),
                Err(e) => package_of(s@) is Err && e.view() == anonymous_error(
                    ErrorKind::Other,
                    package_of(s@)->Err_0,
                ),
            },
    {
        let chars = chars_of(s);
        assert(chars@.subrange(0, chars@.len() as int) =~= chars@);
        let at = match find_char(&chars, '@', 0, chars.len()) {
            Some(at) => at,
            None => {
                return Err(
                    Error::anonymous(
                        ErrorKind::Other,
                        join3("No version provided for package '", s, "'"),
                    ),
                );
            },
        };
        let name = piece(&chars, 0, at);
        let ver = piece(&chars, at + 1, chars.len());
        if !ver.as_str().is_char_boundary(2) {
            return Err(
                Error::anonymous(
                    ErrorKind::Other,
                    join3("No version provided for package '", s, "'"),
                ),
            );
        }
        let (mode, version) = ver.as_str().split_at(2);
        proof {
            encode_utf8_decode_utf8(mode@);
            encode_utf8_decode_utf8(version@);
        }
        let semver = match Semver::from_str(version) {
            Ok(v) => v,
            Err(e) => {
                return Err(e);
            },
        };
        let mode = match SemverMode::from_str(mode) {
            Ok(m) => m,
            Err(e) => {
                return Err(e);
            },
        };
        Ok(SemverPackage(name, semver, mode))
    }

    /// The dependency written out: the name, `@`, the sign of the mode, and
    /// the version.
    pub fn to_string(&self) -> (r: String)
        ensures
            r@ == self.name_spec() + "@"@ + self.mode_spec().sign() + self.version_spec().text(),
    {
        let mut out = join2(self.0.as_str(), "@");
        let mode = self.2.to_string();
        out.append(mode.as_str());
        let version = self.1.to_string();
        out.append(version.as_str());
        out
    }
}

/// The characters of `s` from `from` up to `to`, as text.
pub fn piece(s: &Vec<char>, from: usize, to: usize) -> (r: String)
    requires
        from <= to <= s.len(),
    ensures
        r@ == s@.subrange(from as int, to as int),
{
    let mut out: Vec<char> = Vec::new();
    let mut i: usize = from;
    while i < to
        invariant
            from <= i <= to <= s.len(),
            out@ == s@.subrange(from as int, i as int),
        decreases to - i,
    {
        out.push(s[i]);
        i = i + 1;
        assert(out@ =~= s@.subrange(from as int, i as int));
    }
    text_from(&out)
}

/// The dependency that `s` writes: a name, `@`, the mode in the two bytes
/// after it, and a version; or what is wrong with `s`. The two bytes must end
/// where a character starts or the text ends.
pub open spec fn package_of(s: Seq<char>) -> Result<SemverPackageView, Seq<char>> {
    let at = first_of(s, '@', s.len());
    let bytes = encode_utf8(s.subrange(at + 1, s.len() as int));
    if !(0 <= at < s.len()) || !is_char_boundary(bytes, 2) {
        Err("No version provided for package '"@ + s + "'"@)
    } else {
        let sign = decode_utf8(bytes.subrange(0, 2));
        match semver_of(decode_utf8(bytes.subrange(2, bytes.len() as int))) {
            Err(message) => Err(message),
            Ok(version) => match SemverMode::of_sign(sign) {
                None => Err("Unknown semver match mode '"@ + sign + "'"@),
                Some(mode) => Ok(SemverPackageView { name: s.subrange(0, at), version, mode }),
            },
        }
    }
}

/// A dependency as a mathematical value.
pub ghost struct SemverPackageView {
    pub name: Seq<char>,
    pub version: SemverView,
    pub mode: SemverMode,
}

/// A package as a mathematical value.
pub ghost struct PackageView {
    pub name: Seq<char>,
    pub version: Seq<char>,
    pub dependencies: Seq<SemverPackageView>,
    pub main: Seq<char>,
    pub disk_path: Seq<char>,
}

impl SemverPackage {
    pub open spec fn view(&self) -> SemverPackageView {
        SemverPackageView {
            name: self.name_spec(),
            version: self.version_spec(),
            mode: self.mode_spec(),
        }
    }

    /// A copy of the dependency.
    pub fn clone(&self) -> (r: Self)
        ensures
            r.view() == self.view(),
    {
        SemverPackage(self.0.clone(), self.1.clone(), self.2)
    }
}

/// The first `n` of `parts` with `sep` between them.
pub open spec fn joined(parts: Seq<Seq<char>>, sep: Seq<char>, n: nat) -> Seq<char>
    decreases n,
{
    if n == 0 || n > parts.len() {
        Seq::empty()
    } else if n == 1 {
        parts[0]
    } else {
        joined(parts, sep, (n - 1) as nat) + sep + parts[n - 1]
    }
}

/// The texts of strings.
pub open spec fn texts(parts: Seq<String>) -> Seq<Seq<char>> {
    Seq::new(parts.len(), |i: int| parts[i]@)
}

/// Joins `parts` with `sep` between them.
pub fn join_with(parts: &Vec<String>, sep: &str) -> (r: String)
    ensures
        r@ == joined(texts(parts@), sep@, parts@.len()),
{
    let mut out = String::new();
    let ghost views = texts(parts@);
    let mut i: usize = 0;
    while i < parts.len()
        invariant
            i <= parts.len(),
            views == texts(parts@),
            out@ == joined(views, sep@, i as nat),
        decreases parts.len() - i,
    {
        let ghost before = out@;
        if i > 0 {
            out.append(sep);
        }
        out.append(parts[i].as_str());
        assert(views[i as int] == parts@[i as int]@);
        i = i + 1;
        assert(out@ =~= joined(views, sep@, i as nat));
    }
    out
}

/// The names on the way up from the folder `child` to the folder `relative`,
/// added to `tree`: the name of each folder reached, up to `relative`.
/// Nothing where the way up ends before `relative`, or passes a folder
/// without a name.
pub open spec fn climb(child: Seq<char>, relative: Seq<char>, tree: Seq<Seq<char>>) -> Option<
    Seq<Seq<char>>,
>
    decreases child.len(),
{
    if path_equal(child, relative) {
        Some(tree)
    } else {
        match path_parent(child) {
            None => None,
            Some(parent) => match path_file_name(parent) {
                None => None,
                Some(name) => if parent.len() < child.len() {
                    climb(parent, relative, tree.push(name))
                } else {
                    None
                },
            },
        }
    }
}

/// The folder that holds a package's main file.
pub open spec fn root_of(p: PackageView) -> Option<Seq<char>> {
    path_parent(path_join(p.disk_path, p.main))
}

/// The name of the module at `path` within the package `p`: the package's
/// name, the names on the way up from the module's folder to the folder of
/// the package's main file, and the module's file name without extension,
/// with `::` between them.
pub open spec fn child_name(p: PackageView, path: Seq<char>) -> Option<Seq<char>> {
    match (root_of(p), path_parent(path), path_file_stem(path)) {
        (Some(relative), Some(child), Some(stem)) => match climb(child, relative, seq![p.name]) {
            Some(tree) => Some(joined(tree.push(stem), "::"@, tree.len() + 1)),
            None => None,
        },
        _ => None,
    }
}

/// What the search for a module that is not below the package says.
pub open spec fn no_child_message(path: Seq<char>) -> Seq<char> {
    "Couldn't find child '"@ + path + "'"@
}

/// The folders from `root` down along the first `n` of `names`.
pub open spec fn folders(root: Seq<char>, names: Seq<Seq<char>>, n: nat) -> Seq<Seq<char>>
    decreases n,
{
    if n == 0 || n > names.len() {
        seq![root]
    } else {
        let above = folders(root, names, (n - 1) as nat);
        above.push(path_join(above.last(), names[n - 1]))
    }
}

/// The index of the first dependency named `name` among the first `n`, or
/// -1.
pub open spec fn dependency_index(deps: Seq<SemverPackageView>, name: Seq<char>, n: nat) -> int
    decreases n,
{
    if n == 0 || n > deps.len() {
        -1
    } else if dependency_index(deps, name, (n - 1) as nat) >= 0 {
        dependency_index(deps, name, (n - 1) as nat)
    } else if deps[n - 1].name == name {
        n - 1
    } else {
        -1
    }
}

/// The dependencies as mathematical values.
pub open spec fn dependencies_view(deps: Seq<SemverPackage>) -> Seq<SemverPackageView> {
    Seq::new(deps.len(), |i: int| deps[i].view())
}

/// Where the package that a module path starts with keeps its main file:
/// this package's own folder where the path starts with its name, the folder
/// of the dependency of that name otherwise, which must have been found.
pub open spec fn module_root(
    p: PackageView,
    first: Seq<char>,
    dependency: Option<PackageView>,
) -> Result<Seq<char>, Seq<char>> {
    if first == p.name {
        match root_of(p) {
            Some(root) => Ok(root),
            None => Err("Package has no folder"@),
        }
    } else if dependency_index(p.dependencies, first, p.dependencies.len()) < 0 {
        Err("No package named '"@ + first + "' in manifest"@)
    } else {
        match dependency {
            None => Err("No manifest found for package '"@ + first + "'. Might not be installed."@),
            Some(d) => match root_of(d) {
                Some(root) => Ok(root),
                None => Err("Package has no folder"@),
            },
        }
    }
}

/// The package that stands for the module `index` of this package or of one
/// of its dependencies, and the folders on the way to it, which must exist.
pub ghost struct Dependent {
    pub package: PackageView,
    pub folders: Seq<Seq<char>>,
}

/// The module that the path `index` names: the path's first name is a
/// package, the names after it are folders below the folder of that
/// package's main file, and the last is the module's file, without `.fl`.
pub open spec fn dependent(p: PackageView, index: Seq<Seq<char>>, dependency: Option<PackageView>) -> Result<
    Dependent,
    Seq<char>,
> {
    if index.len() < 2 {
        Err("Module path is too short"@)
    } else {
        match module_root(p, index[0], dependency) {
            Err(message) => Err(message),
            Ok(root) => {
                let rest = index.subrange(1, index.len() as int);
                let way = folders(root, rest, (rest.len() - 1) as nat);
                Ok(
                    Dependent {
                        package: PackageView {
                            name: joined(rest, "::"@, rest.len()),
                            main: path_join(way.last(), rest.last() + ".fl"@),
                            ..p
                        },
                        folders: way,
                    },
                )
            },
        }
    }
}

impl Package {
    pub open spec fn view(&self) -> PackageView {
        PackageView {
            name: self.name@,
            version: self.version@,
            dependencies: dependencies_view(self.dependencies@),
            main: self.main@,
            disk_path: self.disk_path@,
        }
    }

    /// A copy of the package.
    pub fn clone(&self) -> (r: Self)
        ensures
            r.view() == self.view(),
    {
        let mut dependencies: Vec<SemverPackage> = Vec::new();
        let mut i: usize = 0;
        while i < self.dependencies.len()
            invariant
                i <= self.dependencies.len(),
                dependencies@.len() == i,
                forall|j: int|
                    0 <= j < i ==> (#[trigger] dependencies@[j]).view()
                        == self.dependencies@[j].view(),
            decreases self.dependencies.len() - i,
        {
            dependencies.push(self.dependencies[i].clone());
            i = i + 1;
        }
        assert(dependencies_view(dependencies@) =~= dependencies_view(self.dependencies@));
        Package {
            name: self.name.clone(),
            version: self.version.clone(),
            dependencies,
            main: self.main.clone(),
            disk_path: self.disk_path.clone(),
        }
    }

    /// The folder that holds the package's main file.
    pub fn root_folder(&self) -> (r: Option<String>)
        ensures
            maybe_text(r) == root_of(self.view()),
    {
        let main = join_path(self.disk_path.as_str(), self.main.as_str());
        parent_of(main.as_str())
    }

    /// The dependency named `name`: the first of that name.
    pub fn dependency(&self, name: &str) -> (r: Option<usize>)
        ensures
            match r {
                Some(i) => i as int == dependency_index(
                    self.view().dependencies,
                    name@,
                    self.view().dependencies.len(),
                ) && i < self.dependencies.len(),
                None => dependency_index(
                    self.view().dependencies,
                    name@,
                    self.view().dependencies.len(),
                ) == -1,
            },
    {
        let ghost deps = self.view().dependencies;
        let mut i: usize = 0;
        while i < self.dependencies.len()
            invariant
                i <= self.dependencies.len(),
                deps == dependencies_view(self.dependencies@),
                dependency_index(deps, name@, i as nat) == -1,
            decreases self.dependencies.len() - i,
        {
            assert(deps[i as int] == self.dependencies@[i as int].view());
            let found = self.dependencies[i].name();
            if same_text(found.as_str(), name) {
                proof {
                    lemma_dependency_found(deps, name@, (i + 1) as nat, deps.len());
                }
                return Some(i);
            }
            i = i + 1;
        }
        None
    }

    /// The name of the module in the file `path`, which lies in or below the
    /// folder of the package's main file.
    pub fn child(&self, path: String) -> (r: Result<String, Error>)
        ensures
            match r {
                Ok(name) => child_name(self.view(), path@) == Some(name@),
                Err(e) => child_name(self.view(), path@) is None && e.view() == anonymous_error(
                    ErrorKind::Other,
                    no_child_message(path@),
                ),
            },
    {
        let relative = match self.root_folder() {
            Some(r) => r,
            None => {
                return Err(
                    Error::anonymous(
                        ErrorKind::Other,
                        join3("Couldn't find child '", path.as_str(), "'"),
                    ),
                );
            },
        };
        let mut child = match parent_of(path.as_str()) {
            Some(c) => c,
            None => {
                return Err(
                    Error::anonymous(
                        ErrorKind::Other,
                        join3("Couldn't find child '", path.as_str(), "'"),
                    ),
                );
            },
        };
        let stem = match file_stem_of(path.as_str()) {
            Some(s) => s,
            None => {
                return Err(
                    Error::anonymous(
                        ErrorKind::Other,
                        join3("Couldn't find child '", path.as_str(), "'"),
                    ),
                );
            },
        };
        let mut tree: Vec<String> = Vec::new();
        tree.push(self.name.clone());
        let ghost start = child@;
        assert(texts(tree@) =~= seq![self.name@]);
        while !same_path(child.as_str(), relative.as_str())
            invariant
                climb(start, relative@, seq![self.name@]) == climb(child@, relative@, texts(tree@)),
                tree@.len() > 0,
                root_of(self.view()) == Some(relative@),
                path_parent(path@) == Some(start),
                path_file_stem(path@) == Some(stem@),
            decreases child@.len(),
        {
            let ghost before = texts(tree@);
            match parent_of(child.as_str()) {
                None => {
                    return Err(
                        Error::anonymous(
                            ErrorKind::Other,
                            join3("Couldn't find child '", path.as_str(), "'"),
                        ),
                    );
                },
                Some(parent) => match file_name_of(parent.as_str()) {
                    None => {
                        return Err(
                            Error::anonymous(
                                ErrorKind::Other,
                                join3("Couldn't find child '", path.as_str(), "'"),
                            ),
                        );
                    },
                    Some(name) => {
                        tree.push(name);
                        child = parent;
                        assert(texts(tree@) =~= before.push(name@));
                    },
                },
            }
        }
        let ghost names = texts(tree@);
        tree.push(stem);
        assert(texts(tree@) =~= names.push(stem@));
        Ok(join_with(&tree, "::"))
    }

    /// The package that stands for the module `index`, and the folders on
    /// the way to it. `dependency` is the manifest of the dependency that the
    /// path starts with, where it starts with one that was found.
    pub fn dependent_package(&self, index: Vec<String>, dependency: Option<Package>) -> (r: Result<
        (Package, Vec<String>),
        Error,
    >)
        ensures
            match r {
                Ok(found) => dependent(
                    self.view(),
                    texts(index@),
                    match dependency {
                        Some(d) => Some(d.view()),
                        None => None,
                    },
                ) == Ok::<Dependent, Seq<char>>(
                    Dependent { package: found.0.view(), folders: texts(found.1@) },
                ),
                Err(e) => {
                    let expected = dependent(
                        self.view(),
                        texts(index@),
                        match dependency {
                            Some(d) => Some(d.view()),
                            None => None,
                        },
                    );
                    expected is Err && e.view() == anonymous_error(
                        ErrorKind::Other,
                        expected->Err_0,
                    )
                },
            },
    {
        let ghost names = texts(index@);
        if index.len() < 2 {
            return Err(Error::anonymous(ErrorKind::Other, "Module path is too short".to_owned()));
        }
        assert(names[0] == index@[0]@);
        let first = index[0].as_str();
        let root = if same_text(first, self.name.as_str()) {
            match self.root_folder() {
                Some(root) => root,
                None => {
                    return Err(
                        Error::anonymous(ErrorKind::Other, "Package has no folder".to_owned()),
                    );
                },
            }
        } else {
            match self.dependency(first) {
                None => {
                    return Err(
                        Error::anonymous(
                            ErrorKind::Other,
                            join3("No package named '", first, "' in manifest"),
                        ),
                    );
                },
                Some(_) => match &dependency {
                    None => {
                        return Err(
                            Error::anonymous(
                                ErrorKind::Other,
                                join3(
                                    "No manifest found for package '",
                                    first,
                                    "'. Might not be installed.",
                                ),
                            ),
                        );
                    },
                    Some(d) => match d.root_folder() {
                        Some(root) => root,
                        None => {
                            return Err(
                                Error::anonymous(
                                    ErrorKind::Other,
                                    "Package has no folder".to_owned(),
                                ),
                            );
                        },
                    },
                },
            }
        };
        let ghost rest = names.subrange(1, names.len() as int);
        let mut tail: Vec<String> = Vec::new();
        let mut way: Vec<String> = Vec::new();
        way.push(root.clone());
        assert(texts(way@) =~= folders(root@, rest, 0));
        assert(texts(tail@) =~= rest.subrange(0, 0));
        let mut i: usize = 1;
        while i < index.len() - 1
            invariant
                1 <= i <= index.len() - 1,
                names == texts(index@),
                rest == names.subrange(1, names.len() as int),
                texts(way@) == folders(root@, rest, (i - 1) as nat),
                texts(tail@) == rest.subrange(0, i - 1),
                way@.len() > 0,
            decreases index.len() - i,
        {
            let ghost before = texts(way@);
            let ghost tail_before = texts(tail@);
            assert(names[i as int] == index@[i as int]@);
            assert(rest[i - 1] == names[i as int]);
            assert(before.last() == way@[way@.len() - 1]@);
            let next = join_path(way[way.len() - 1].as_str(), index[i].as_str());
            way.push(next);
            tail.push(index[i].clone());
            assert(texts(way@) =~= before.push(next@));
            assert(texts(tail@) =~= tail_before.push(rest[i - 1]));
            assert(tail_before.push(rest[i - 1]) =~= rest.subrange(0, i as int));
            i = i + 1;
        }
        let last = index.len() - 1;
        assert(names[last as int] == index@[last as int]@);
        assert(rest.last() == names[last as int]);
        let ghost tail_before = texts(tail@);
        tail.push(index[last].clone());
        assert(texts(tail@) =~= tail_before.push(rest.last()));
        assert(tail_before.push(rest.last()) =~= rest);
        let file = join2(index[last].as_str(), ".fl");
        let ghost way_view = texts(way@);
        assert(way_view.last() == way@[way@.len() - 1]@);
        let main = join_path(way[way.len() - 1].as_str(), file.as_str());
        let mut p = self.clone();
        p.name = join_with(&tail, "::");
        p.main = main;
        Ok((p, way))
    }
}

/// Once a dependency of the name is found, it stays the first of that name.
pub proof fn lemma_dependency_found(deps: Seq<SemverPackageView>, name: Seq<char>, n: nat, m: nat)
    requires
        n <= m <= deps.len(),
        dependency_index(deps, name, n) >= 0,
    ensures
        dependency_index(deps, name, m) == dependency_index(deps, name, n),
    decreases m,
{
    if n < m {
        lemma_dependency_found(deps, name, n, (m - 1) as nat);
    }
}

} // verus!
