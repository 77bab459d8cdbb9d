//! Source files laid end to end in one text.

use vstd::prelude::*;
use vstd::string::*;
use vstd::utf8::{decode_utf8, encode_utf8, encode_utf8_decode_utf8, is_char_boundary};
use crate::assoc::{bound, find, lemma_position, lookup, position, put};
use crate::text::{lemma_boundary_within, lemma_bytes_of_joined};

verus! {

/// Source files in one text, each after a heading that names it, and for each
/// path the part of the text that was recorded for it. Lengths and places
/// are counted in bytes.
#[derive(Debug)]
pub struct Flat {
    source: String,
    file_bounds: Vec<(String, (usize, usize))>,
}

/// The heading before the file at `path`.
pub open spec fn heading(path: Seq<char>) -> Seq<char> {
    "\n\n// "@ + path + "\n"@
}

/// The parts recorded by path, as a map.
pub open spec fn bounds_map(s: Seq<(String, (usize, usize))>) -> Map<Seq<char>, (usize, usize)> {
    Map::new(|k: Seq<char>| bound(s, k), |k: Seq<char>| s[position(s, k)].1)
}

/// Whether the bytes from `from` up to `to` are a part of `text` that starts
/// and ends where characters start or the text ends.
pub open spec fn is_part(text: Seq<char>, from: usize, to: usize) -> bool {
    &&& from <= to
    &&& is_char_boundary(encode_utf8(text), from as int)
    &&& is_char_boundary(
        encode_utf8(text).subrange(from as int, encode_utf8(text).len() as int),
        to - from,
    )
}

/// The part of `text` in the bytes from `from` up to `to`.
pub open spec fn part_of(text: Seq<char>, from: usize, to: usize) -> Seq<char> {
    decode_utf8(encode_utf8(text).subrange(from as int, to as int))
}

impl Flat {
    /// The whole text.
    pub closed spec fn text(&self) -> Seq<char> {
        self.source@
    }

    /// The part of the text recorded for each path: the byte at which it
    /// starts, and the byte at which it ends.
    pub closed spec fn bounds(&self) -> Map<Seq<char>, (usize, usize)> {
        bounds_map(self.file_bounds@)
    }

    /// No files.
    pub fn new() -> (r: Self)
        ensures
            r.text() == Seq::<char>::empty(),
            r.bounds() == Map::<Seq<char>, (usize, usize)>::empty(),
    {
        let r = Flat { source: String::new(), file_bounds: Vec::new() };
        proof {
            assert forall|k: Seq<char>| position(r.file_bounds@, k) == -1 by {
                lemma_position(r.file_bounds@, k);
            }
            assert(r.bounds() =~= Map::<Seq<char>, (usize, usize)>::empty());
        }
        r
    }

    /// Adds a file to the text, after a heading that names it. The part
    /// recorded for the file starts where the heading starts and is as long
    /// as the file.
    pub fn add_source_file(&mut self, contents: String, relative_path: String)
        ensures
            final(self).text() == old(self).text() + heading(relative_path@) + contents@,
            final(self).bounds() == old(self).bounds().insert(
                relative_path@,
                (
                    encode_utf8(old(self).text()).len() as usize,
                    (encode_utf8(old(self).text()).len() + encode_utf8(contents@).len()) as usize,
                ),
            ),
    {
        let ghost before = self.source@;
        let start = self.source.as_str().as_bytes().len();
        let length = contents.as_str().as_bytes().len();
        let mut all = String::new();
        std::mem::swap(&mut all, &mut self.source);
        all.append("\n\n// ");
        all.append(relative_path.as_str());
        all.append("\n");
        all.append(contents.as_str());
        proof {
            assert(all@ =~= before + heading(relative_path@) + contents@);
            lemma_bytes_of_joined(before + heading(relative_path@), contents@);
            lemma_bytes_of_joined(before, heading(relative_path@));
        }
        let total = all.as_str().as_bytes().len();
        assert(start + length <= total);
        let end = start + length;
        self.source = all;
        let ghost bounds_before = self.file_bounds@;
        put(&mut self.file_bounds, relative_path, (start, end));
        proof {
            assert forall|k: Seq<char>| #[trigger]
                bounds_map(self.file_bounds@).dom().contains(k) == bounds_map(bounds_before).insert(
                    relative_path@,
                    (start, end),
                ).dom().contains(k) by {
                assert(lookup(self.file_bounds@, k) == lookup(self.file_bounds@, k));
            }
            assert forall|k: Seq<char>| #[trigger]
                bounds_map(self.file_bounds@).dom().contains(k) implies bounds_map(
                self.file_bounds@,
            )[k] == bounds_map(bounds_before).insert(relative_path@, (start, end))[k] by {
                assert(lookup(self.file_bounds@, k) == lookup(self.file_bounds@, k));
            }
            assert(bounds_map(self.file_bounds@) =~= bounds_map(bounds_before).insert(
                relative_path@,
                (start, end),
            ));
        }
    }

    /// The part of the text recorded for the file at `relative_path`, and
    /// the byte at which it starts: nothing where no part is recorded for
    /// the path, or the recorded part does not start and end where
    /// characters of the text start or the text ends.
    pub fn get_source_file(&self, relative_path: String) -> (r: Option<(String, usize)>)
        ensures
            match r {
                Some(found) => {
                    &&& self.bounds().contains_key(relative_path@)
                    &&& is_part(
                        self.text(),
                        self.bounds()[relative_path@].0,
                        self.bounds()[relative_path@].1,
                    )
                    &&& found.1 == self.bounds()[relative_path@].0
                    &&& found.0@ == part_of(
                        self.text(),
                        self.bounds()[relative_path@].0,
                        self.bounds()[relative_path@].1,
                    )
                },
                None => !self.bounds().contains_key(relative_path@) || !is_part(
                    self.text(),
                    self.bounds()[relative_path@].0,
                    self.bounds()[relative_path@].1,
                ),
            },
    {
        proof {
            lemma_position(self.file_bounds@, relative_path@);
        }
        match find(&self.file_bounds, relative_path.as_str()) {
            None => None,
            Some(i) => {
                let (from, to) = self.file_bounds[i].1;
                let source = self.source.as_str();
                if from > to || !source.is_char_boundary(from) {
                    return None;
                }
                let (_, tail) = source.split_at(from);
                if !tail.is_char_boundary(to - from) {
                    return None;
                }
                let (part, _) = tail.split_at(to - from);
                proof {
                    lemma_boundary_within(self.source@, from as int);
                    lemma_boundary_within(tail@, to - from);
                    encode_utf8_decode_utf8(part@);
                    assert(encode_utf8(part@) =~= encode_utf8(self.source@).subrange(
                        from as int,
                        to as int,
                    ));
                }
                Some((part.to_owned(), from))
            },
        }
    }
}

} // verus!
