//! Errors, as the interpreter reports them.

use vstd::prelude::*;
use vstd::string::*;
use crate::sitter::{Span, SpanView};

verus! {

/// A result whose failure is an error of the interpreter.
pub type Result<T> = std::result::Result<T, Error>;

/// The phase in which an error arose.
#[derive(Debug, Clone, Copy, PartialEq, Eq, Structural)]
pub enum FlangStage {
    PreProcessing,
    Runtime,
}

/// What went wrong.
#[derive(Debug, Clone, Copy, PartialEq, Eq, Structural)]
pub enum ErrorKind {
    /// An assignment to a name that is not bound.
    UndefinedVariable,
    /// An assignment of a value whose type is not that of the variable.
    TypeMismatch,
    /// A declaration whose value is not of the declared type.
    DeclaredTypeMismatch,
    /// A call with the wrong number of arguments, or with one of the wrong type.
    ArgumentTypeMismatch,
    /// An operator between operands of different types.
    DyadicTypeMismatch,
    /// A type's name that stands for no type.
    UnknownType,
    /// A call of a name that is not bound to a function.
    NoSuchFunction,
    /// A call of a method where no value is at hand to be its `self`.
    CannotCallMethodStatically,
    /// A step of an index chain that has no value.
    UnknownIndex,
    /// An implementation of a trait that was not declared.
    UnknownTrait,
    /// An operator that no trait implements for the operand.
    NoSuchOperatorImplementation,
    /// An operand that has no value.
    MissingValue,
    /// An export where no module is being evaluated.
    NoModule,
    /// Expressions or calls nested deeper than the evaluator was allowed to go.
    DepthExceeded,
    /// Any other failure, described by its message alone.
    Other,
}

/// An error: where and when it arose, what it says, and how grave it is.
#[derive(Debug)]
pub struct Error {
    pub kind: ErrorKind,
    pub stage: FlangStage,
    pub error: String,
    pub hint: Option<String>,
    pub fatal: bool,
    pub code: Option<String>,
    pub bounds: (usize, usize),
    /// The path of the source file that the error points into.
    pub source: Option<String>,
}

/// An error as a mathematical value.
pub ghost struct ErrorView {
    pub kind: ErrorKind,
    pub stage: FlangStage,
    pub error: Seq<char>,
    pub hint: Option<Seq<char>>,
    pub fatal: bool,
    pub code: Option<Seq<char>>,
    pub bounds: (usize, usize),
    pub source: Option<Seq<char>>,
}

/// The text of an optional string.
pub open spec fn text_of(s: Option<String>) -> Option<Seq<char>> {
    match s {
        Some(t) => Some(t@),
        None => None,
    }
}

/// The error that the evaluator raises at `span`: not fatal, without hint or
/// code.
pub open spec fn runtime_error(kind: ErrorKind, message: Seq<char>, span: SpanView) -> ErrorView {
    ErrorView {
        kind,
        stage: FlangStage::Runtime,
        error: message,
        hint: None,
        fatal: false,
        code: None,
        bounds: span.byte_bounds,
        source: Some(span.source_file),
    }
}

/// The error that the evaluator raises at no place in particular.
pub open spec fn anonymous_error(kind: ErrorKind, message: Seq<char>) -> ErrorView {
    ErrorView {
        kind,
        stage: FlangStage::Runtime,
        error: message,
        hint: None,
        fatal: false,
        code: None,
        bounds: (0usize, 0usize),
        source: None,
    }
}

/// The text that `{:?}` gives for a string: the string between quotes, with
/// its special characters escaped.
pub uninterp spec fn debug_text(s: Seq<char>) -> Seq<char>;

/// `<str as Debug>::fmt`, through `format!`: the quoted and escaped form of a
/// string, which depends on the string alone.
#[verifier::external_body]
fn quoted(s: &str) -> (r: String)
    ensures
        r@ == debug_text(s@),
{
    format!("{:?}", s)
}

impl FlangStage {
    /// The stage's name.
    pub open spec fn label(self) -> Seq<char> {
        match self {
            FlangStage::PreProcessing => "Pre-Processing"@,
            FlangStage::Runtime => "Runtime"@,
        }
    }

    /// The stage's name.
    pub fn to_string(&self) -> (r: String)
        ensures
            r@ == self.label(),
    {
        match self {
            FlangStage::PreProcessing => "Pre-Processing".to_owned(),
            FlangStage::Runtime => "Runtime".to_owned(),
        }
    }
}

impl ErrorView {
    /// The error on one line: the code if there is one, the stage, the
    /// quoted message, and the hint if there is one.
    pub open spec fn text(self) -> Seq<char> {
        (match self.code {
            Some(c) => c + " "@,
            None => Seq::<char>::empty(),
        }) + "Error in "@ + self.stage.label() + ": "@ + debug_text(self.error) + (match self.hint {
            Some(h) => h + "\n"@,
            None => Seq::<char>::empty(),
        })
    }
}

impl Error {
    pub open spec fn view(&self) -> ErrorView {
        ErrorView {
            kind: self.kind,
            stage: self.stage,
            error: self.error@,
            hint: text_of(self.hint),
            fatal: self.fatal,
            code: text_of(self.code),
            bounds: self.bounds,
            source: text_of(self.source),
        }
    }

    /// An error of the evaluator at the place `span`.
    pub fn runtime(kind: ErrorKind, message: String, span: &Span) -> (r: Error)
        ensures
            r.view() == runtime_error(kind, message@, span.view()),
    {
        Error {
            kind,
            stage: FlangStage::Runtime,
            error: message,
            hint: None,
            fatal: false,
            code: None,
            bounds: span.byte_bounds,
            source: Some(span.source_file.clone()),
        }
    }

    /// An error of the evaluator at no place in particular.
    pub fn anonymous(kind: ErrorKind, message: String) -> (r: Error)
        ensures
            r.view() == anonymous_error(kind, message@),
    {
        Error {
            kind,
            stage: FlangStage::Runtime,
            error: message,
            hint: None,
            fatal: false,
            code: None,
            bounds: (0, 0),
            source: None,
        }
    }

    /// The error on one line.
    pub fn to_string(&self) -> (r: String)
        ensures
            r@ == self.view().text(),
    {
        let mut out = match &self.code {
            Some(c) => {
                let mut s = c.clone();
                s.append(" ");
                s
            },
            None => String::new(),
        };
        out.append("Error in ");
        let stage = self.stage.to_string();
        out.append(stage.as_str());
        out.append(": ");
        let message = quoted(self.error.as_str());
        out.append(message.as_str());
        match &self.hint {
            Some(h) => {
                out.append(h.as_str());
                out.append("\n");
            },
            None => {},
        }
        proof {
            assert(out@ =~= self.view().text());
        }
        out
    }
}

/// Turning a failure that is only a message into an error of the evaluator.
pub trait Erroneous<T> {
    /// The failure as a runtime error at the place `s`.
    fn rt(self, s: Span) -> (r: Result<T>);

    /// The failure as a runtime error at no place in particular.
    fn rta(self) -> (r: Result<T>);
}

impl<T> Erroneous<T> for std::result::Result<T, String> {
    fn rt(self, s: Span) -> (r: Result<T>)
        ensures
            match self {
                Ok(v) => r == Ok::<T, Error>(v),
                Err(m) => r is Err && r->Err_0.view() == runtime_error(
                    ErrorKind::Other,
                    m@,
                    s.view(),
                ),
            },
    {
        match self {
            Ok(v) => Ok(v),
            Err(m) => Err(Error::runtime(ErrorKind::Other, m, &s)),
        }
    }

    fn rta(self) -> (r: Result<T>)
        ensures
            match self {
                Ok(v) => r == Ok::<T, Error>(v),
                Err(m) => r is Err && r->Err_0.view() == anonymous_error(ErrorKind::Other, m@),
            },
    {
        match self {
            Ok(v) => Ok(v),
            Err(m) => Err(Error::anonymous(ErrorKind::Other, m)),
        }
    }
}

/// Adding to the error of a failed result.
pub trait ErroneousExt<T> {
    /// The same result, its error with the hint `h`.
    fn hint(self, h: &str) -> (r: Result<T>);

    /// The same result, its error fatal or not as `f` says.
    fn fatal(self, f: bool) -> (r: Result<T>);

    /// The same result, its error with the code `c`.
    fn code(self, c: &str) -> (r: Result<T>);
}

impl<T> ErroneousExt<T> for Result<T> {
    fn hint(self, h: &str) -> (r: Result<T>)
        ensures
            match self {
                Ok(v) => r == Ok::<T, Error>(v),
                Err(e) => r is Err && r->Err_0.view() == (ErrorView {
                    hint: Some(h@),
                    ..e.view()
                }),
            },
    {
        match self {
            Ok(v) => Ok(v),
            Err(e) => {
                let mut e = e;
                e.hint = Some(h.to_owned());
                Err(e)
            },
        }
    }

    fn fatal(self, f: bool) -> (r: Result<T>)
        ensures
            match self {
                Ok(v) => r == Ok::<T, Error>(v),
                Err(e) => r is Err && r->Err_0.view() == (ErrorView { fatal: f, ..e.view() }),
            },
    {
        match self {
            Ok(v) => Ok(v),
            Err(e) => {
                let mut e = e;
                e.fatal = f;
                Err(e)
            },
        }
    }

    fn code(self, c: &str) -> (r: Result<T>)
        ensures
            match self {
                Ok(v) => r == Ok::<T, Error>(v),
                Err(e) => r is Err && r->Err_0.view() == (ErrorView {
                    code: Some(c@),
                    ..e.view()
                }),
            },
    {
        match self {
            Ok(v) => Ok(v),
            Err(e) => {
                let mut e = e;
                e.code = Some(c.to_owned());
                Err(e)
            },
        }
    }
}

impl Span {
    /// A runtime error at this place that says `err`.
    #[must_use]
    pub fn as_error(self, err: &str) -> (r: Error)
        ensures
            r.view() == runtime_error(ErrorKind::Other, err@, self.view()),
    {
        Error::runtime(ErrorKind::Other, err.to_owned(), &self)
    }
}

} // verus!
