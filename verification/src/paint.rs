//! Terminal decoration of the pieces of a report.
//!
//! Decoration is done by the `colored` crate, which decides for the whole
//! process (from `NO_COLOR`, `CLICOLOR` and `CLICOLOR_FORCE`, from whether
//! standard output is a terminal, and from its override switch) whether to
//! emit escape codes at all. A decorated text is therefore one of two
//! things: the text wrapped in escape codes, or the text itself. The
//! contracts here take for granted that the switch is not turned while a
//! call runs.

use colored::Colorize;
use vstd::prelude::*;

verus! {

/// The roles a piece of text can play in a report; each has its own look.
#[derive(Clone, Copy, Debug)]
pub enum Style {
    /// The number in front of a reported line: green.
    LineNumber,
    /// A matched substring inside a reported line: bold red.
    Match,
    /// The message of a line that could not be decoded: red.
    Failure,
    /// The name of a source above its block of lines: blue.
    SourceName,
}

/// `text` in green, as `colored` writes it when colouring is on.
pub uninterp spec fn ansi_green(text: Seq<char>) -> Seq<char>;

/// `text` in bold red, as `colored` writes it when colouring is on.
pub uninterp spec fn ansi_bold_red(text: Seq<char>) -> Seq<char>;

/// `text` in red, as `colored` writes it when colouring is on.
pub uninterp spec fn ansi_red(text: Seq<char>) -> Seq<char>;

/// `text` in blue, as `colored` writes it when colouring is on.
pub uninterp spec fn ansi_blue(text: Seq<char>) -> Seq<char>;

/// `text` with the escape codes of `style` around it.
pub open spec fn coloured(style: Style, text: Seq<char>) -> Seq<char> {
    match style {
        Style::LineNumber => ansi_green(text),
        Style::Match => ansi_bold_red(text),
        Style::Failure => ansi_red(text),
        Style::SourceName => ansi_blue(text),
    }
}

/// Whether `out` is a decoration of `text` in `style`: the coloured form, or
/// `text` unchanged where colouring is off.
pub open spec fn is_decorated(style: Style, text: Seq<char>, out: Seq<char>) -> bool {
    out == text || out == coloured(style, text)
}

/// `Colorize::green` on `text`, formatted through `Display`. `colored`
/// writes the input unchanged when colouring is off, and otherwise the green
/// escape sequence, the input and the reset sequence; which of the two
/// depends on the process, so both are allowed.
#[verifier::external_body]
fn green(text: &str) -> (out: String)
    ensures
        out@ == text@ || out@ == ansi_green(text@),
{
    text.green().to_string()
}

/// `Colorize::red` then `Colorize::bold` on `text`, formatted through
/// `Display`: the input unchanged when colouring is off, the bold red form
/// otherwise.
#[verifier::external_body]
fn bold_red(text: &str) -> (out: String)
    ensures
        out@ == text@ || out@ == ansi_bold_red(text@),
{
    text.red().bold().to_string()
}

/// `Colorize::red` on `text`, formatted through `Display`: the input
/// unchanged when colouring is off, the red form otherwise.
#[verifier::external_body]
fn red(text: &str) -> (out: String)
    ensures
        out@ == text@ || out@ == ansi_red(text@),
{
    text.red().to_string()
}

/// `Colorize::blue` on `text`, formatted through `Display`: the input
/// unchanged when colouring is off, the blue form otherwise.
#[verifier::external_body]
fn blue(text: &str) -> (out: String)
    ensures
        out@ == text@ || out@ == ansi_blue(text@),
{
    text.blue().to_string()
}

/// Decorates `text` for the role `style`.
pub fn decorate(text: &str, style: Style) -> (out: String)
    ensures
        is_decorated(style, text@, out@),
{
    match style {
        Style::LineNumber => green(text),
        Style::Match => bold_red(text),
        Style::Failure => red(text),
        Style::SourceName => blue(text),
    }
}

} // verus!
