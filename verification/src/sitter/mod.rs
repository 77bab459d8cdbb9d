//! What the evaluator takes from a parser: expressions, each with the place in
//! the source text that it was read from.

use vstd::prelude::*;
use vstd::string::*;
use std::sync::Arc;
use crate::project::paths::{parent_of, path_parent};
use crate::project::source::SourceMap;
use crate::text::{remove_all, skip, without};

pub mod expr;
pub mod lower;
pub mod op;

verus! {

/// A place in a source file: byte range, start and end as row and column, the
/// text there, and the file's path. It serves diagnostics only.
#[derive(Debug)]
pub struct Span {
    pub byte_bounds: (usize, usize),
    pub start: (usize, usize),
    pub end: (usize, usize),
    pub text: String,
    pub source_file: String,
}

/// A place in a source file as a mathematical value.
pub ghost struct SpanView {
    pub byte_bounds: (usize, usize),
    pub start: (usize, usize),
    pub end: (usize, usize),
    pub text: Seq<char>,
    pub source_file: Seq<char>,
}

impl SpanView {
    /// The span of no place at all.
    pub open spec fn anonymous() -> SpanView {
        SpanView {
            byte_bounds: (0usize, 0usize),
            start: (0usize, 0usize),
            end: (0usize, 0usize),
            text: Seq::empty(),
            source_file: Seq::empty(),
        }
    }
}

impl Clone for Span {
    fn clone(&self) -> (r: Self)
        ensures
            r == *self,
    {
        Span {
            byte_bounds: self.byte_bounds,
            start: self.start,
            end: self.end,
            text: self.text.clone(),
            source_file: self.source_file.clone(),
        }
    }
}

impl Span {
    pub open spec fn view(&self) -> SpanView {
        SpanView {
            byte_bounds: self.byte_bounds,
            start: self.start,
            end: self.end,
            text: self.text@,
            source_file: self.source_file@,
        }
    }

    /// The name under which the span's file is shown, where its package was
    /// found in the folder `package_folder`: the file's path without the path
    /// of the folder above the package, wherever that stands in it, and
    /// without its first character. Where no package was found, or the
    /// package's folder has none above it, the file's path.
    pub open spec fn file_name_in(self, package_folder: Option<Seq<char>>) -> Seq<char> {
        match package_folder {
            Some(folder) => match path_parent(folder) {
                Some(above) => {
                    let relative = without(self.view().source_file, above);
                    if relative.len() > 0 {
                        relative.subrange(1, relative.len() as int)
                    } else {
                        relative
                    }
                },
                None => self.view().source_file,
            },
            None => self.view().source_file,
        }
    }

    /// The name under which the span's file is shown.
    pub fn file_nameish(&self, package_folder: Option<&str>) -> (r: String)
        ensures
            r@ == self.file_name_in(
                match package_folder {
                    Some(folder) => Some(folder@),
                    None => None,
                },
            ),
    {
        match package_folder {
            Some(folder) => match parent_of(folder) {
                Some(above) => {
                    let relative = remove_all(self.source_file.as_str(), above.as_str());
                    if relative.as_str().unicode_len() > 0 {
                        skip(relative.as_str(), 1)
                    } else {
                        relative
                    }
                },
                None => self.source_file.clone(),
            },
            None => self.source_file.clone(),
        }
    }

    /// The span of a value that no source text stands for.
    pub fn anonymous() -> (r: Span)
        ensures
            r.view() == SpanView::anonymous(),
    {
        Span {
            byte_bounds: (0, 0),
            start: (0, 0),
            end: (0, 0),
            text: String::new(),
            source_file: String::new(),
        }
    }
}

/// What a parser knows of the file it reads.
#[derive(Debug)]
pub struct ParseContext {
    source_file: String,
}

/// What a node of a syntax tree offers to the lowering.
pub trait NodeExt {
    /// The text of the node in its source.
    fn text(&self, pc: &Arc<ParseContext>) -> String;
}

/// The text that a lossy decoding makes of bytes: the characters that the
/// bytes encode in UTF-8, with a replacement character for what is no
/// encoding.
pub uninterp spec fn lossy_text(bytes: Seq<u8>) -> Seq<char>;

/// `String::from_utf8_lossy` on a part of a string's bytes: the decoding of
/// those bytes, which depends on them alone.
#[verifier::external_body]
fn slice_lossy(source: &str, from: usize, to: usize) -> (r: String)
    requires
        from <= to <= source.spec_bytes().len() as usize,
    ensures
        r@ == lossy_text(source.spec_bytes().subrange(from as int, to as int)),
{
    String::from_utf8_lossy(&source.as_bytes()[from..to]).to_string()
}

/// The text of a span: the decoding of the source's bytes within the bounds,
/// or `[Anonymous]` where the source is not known or the bounds are not
/// within it.
pub open spec fn span_text(source: Option<Seq<char>>, bounds: (usize, usize)) -> Seq<char> {
    match source {
        Some(text) => {
            let bytes = vstd::utf8::encode_utf8(text);
            if bounds.0 <= bounds.1 <= bytes.len() as usize {
                lossy_text(bytes.subrange(bounds.0 as int, bounds.1 as int))
            } else {
                "[Anonymous]"@
            }
        },
        None => "[Anonymous]"@,
    }
}

impl ParseContext {
    /// The path of the file.
    pub closed spec fn file(&self) -> Seq<char> {
        self.source_file@
    }

    /// The context of the file at the path `source_file`.
    pub fn new(source_file: String) -> (r: Self)
        ensures
            r.file() == source_file@,
    {
        ParseContext { source_file }
    }

    /// The path of the file.
    pub fn source_file(&self) -> (r: String)
        ensures
            r@ == self.file(),
    {
        self.source_file.clone()
    }

    /// The span of a node at the given bounds and positions, with its text
    /// taken from the file's source in `sources`.
    pub fn span(
        &self,
        byte_bounds: (usize, usize),
        start: (usize, usize),
        end: (usize, usize),
        sources: &SourceMap,
    ) -> (r: Span)
        ensures
            r.view() == (SpanView {
                byte_bounds,
                start,
                end,
                text: span_text(
                    if sources.view().contains_key(self.file()) {
                        Some(sources.view()[self.file()])
                    } else {
                        None
                    },
                    byte_bounds,
                ),
                source_file: self.file(),
            }),
    {
        let text = match sources.get_source(self.source_file.clone()) {
            Some(source) => {
                let source = source.as_str();
                if byte_bounds.0 <= byte_bounds.1 && byte_bounds.1 <= source.len() {
                    slice_lossy(source, byte_bounds.0, byte_bounds.1)
                } else {
                    "[Anonymous]".to_owned()
                }
            },
            None => "[Anonymous]".to_owned(),
        };
        Span { byte_bounds, start, end, text, source_file: self.source_file.clone() }
    }
}

} // verus!
