//! Colours for text on a terminal.

use vstd::prelude::*;
use owo_colors::OwoColorize;
use crate::runtime::semantics::{
    blue_text, cyan_text, dimmed_text, green_text, magenta_text, yellow_text,
};

verus! {

/// `OwoColorize::yellow`, written out: the text between the escape sequence
/// for a yellow foreground and the one for the default foreground.
#[verifier::external_body]
pub(crate) fn yellow(s: &str) -> (r: String)
    ensures
        r@ == yellow_text(s@),
{
    s.yellow().to_string()
}

/// `OwoColorize::green`, written out: the text between the escape sequence
/// for a green foreground and the one for the default foreground.
#[verifier::external_body]
pub(crate) fn green(s: &str) -> (r: String)
    ensures
        r@ == green_text(s@),
{
    s.green().to_string()
}

/// `OwoColorize::cyan`, written out: the text between the escape sequence for
/// a cyan foreground and the one for the default foreground.
#[verifier::external_body]
pub(crate) fn cyan(s: &str) -> (r: String)
    ensures
        r@ == cyan_text(s@),
{
    s.cyan().to_string()
}

/// `OwoColorize::blue`, written out: the text between the escape sequence for
/// a blue foreground and the one for the default foreground.
#[verifier::external_body]
pub(crate) fn blue(s: &str) -> (r: String)
    ensures
        r@ == blue_text(s@),
{
    s.blue().to_string()
}

/// `OwoColorize::magenta`, written out: the text between the escape sequence
/// for a magenta foreground and the one for the default foreground.
#[verifier::external_body]
pub(crate) fn magenta(s: &str) -> (r: String)
    ensures
        r@ == magenta_text(s@),
{
    s.magenta().to_string()
}

/// `OwoColorize::dimmed`, written out: the text between the escape sequence
/// for a dim rendition and the one that resets all renditions.
#[verifier::external_body]
pub(crate) fn dimmed(s: &str) -> (r: String)
    ensures
        r@ == dimmed_text(s@),
{
    s.dimmed().to_string()
}

} // verus!
