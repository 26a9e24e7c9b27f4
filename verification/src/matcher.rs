//! Compiled patterns: building one, testing a line against it, and
//! emphasising what it matches in a line.
//!
//! The regular-expression engine is the `regex` crate. What it answers is a
//! function of the pattern text, the case flag and the line alone, so each of
//! its answers has a name here, and the contracts of this module are stated
//! over those names.

use crate::paint::{coloured, decorate, Style};
use regex::{Captures, Regex, RegexBuilder};
use vstd::prelude::*;

verus! {

/// `regex::Regex`, a compiled regular expression. Nothing inside it is
/// visible here; `build_pattern` makes it and the searches use it.
#[verifier::external_type_specification]
#[verifier::external_body]
pub struct ExRegex(regex::Regex);

/// `regex::Error`, the engine's account of a failed compilation. Nothing
/// inside it is visible here; it is only handed to `describe`.
#[verifier::external_type_specification]
#[verifier::external_body]
pub struct ExRegexError(regex::Error);

/// Whether the `regex` crate compiles `source` as a regular expression, with
/// case folding switched on by `case_insensitive` and every other setting at
/// its default: the syntax is valid and the compiled program stays within
/// the default size limit.
pub uninterp spec fn pattern_compiles(source: Seq<char>, case_insensitive: bool) -> bool;

/// The leftmost match of the compiled `source` in `line`, as the byte
/// offsets of its start and its end in the UTF-8 text of `line`; `None`
/// when nothing in `line` matches.
pub uninterp spec fn leftmost_match(
    source: Seq<char>,
    case_insensitive: bool,
    line: Seq<char>,
) -> Option<(int, int)>;

/// The successive non-overlapping matches of the compiled `source` in
/// `line`, from left to right, each as the half-open range of positions in
/// `line` (counted in characters) that it covers. These are the places where
/// `Regex::replace_all` substitutes.
pub uninterp spec fn match_spans(
    source: Seq<char>,
    case_insensitive: bool,
    line: Seq<char>,
) -> Seq<(int, int)>;

/// `line` from position `from` on, with the text of each span in `spans`
/// replaced by its coloured form and the text between and after the spans
/// kept as it is.
pub open spec fn emphasized_from(line: Seq<char>, spans: Seq<(int, int)>, from: int) -> Seq<char>
    decreases spans.len(),
{
    if spans.len() == 0 {
        line.subrange(from, line.len() as int)
    } else {
        line.subrange(from, spans[0].0) + coloured(
            Style::Match,
            line.subrange(spans[0].0, spans[0].1),
        ) + emphasized_from(line, spans.drop_first(), spans[0].1)
    }
}

/// What a compiled pattern stands for: the text it was compiled from and
/// whether it folds case.
pub ghost struct PatternModel {
    pub source: Seq<char>,
    pub case_insensitive: bool,
}

impl PatternModel {
    /// Whether the pattern matches anywhere in `line`.
    pub open spec fn matches(self, line: Seq<char>) -> bool {
        leftmost_match(self.source, self.case_insensitive, line) is Some
    }

    /// `line` with every non-overlapping match in colour.
    pub open spec fn emphasized(self, line: Seq<char>) -> Seq<char> {
        emphasized_from(line, match_spans(self.source, self.case_insensitive, line), 0)
    }

    /// Whether `out` is a highlighted copy of `line`: every match in colour,
    /// or, where colouring is off or nothing matches, `line` itself.
    pub open spec fn is_highlight(self, line: Seq<char>, out: Seq<char>) -> bool {
        out == line || (self.matches(line) && out == self.emphasized(line))
    }
}

/// A compiled pattern: the engine's regex, and beside it the text and flag
/// that the regex was compiled from. It is immutable. Only `build_pattern`
/// puts the two together, so the model always belongs to the regex.
pub struct Pattern {
    regex: Regex,
    model: Ghost<PatternModel>,
}

impl View for Pattern {
    type V = PatternModel;

    closed spec fn view(&self) -> PatternModel {
        self.model@
    }
}

/// The pattern text is not a regular expression that the engine accepts.
#[derive(Debug)]
pub struct InvalidPattern {
    /// The rejected pattern text.
    pub pattern: String,
    /// The engine's description of what is wrong with it.
    pub reason: String,
}

impl InvalidPattern {
    /// The one-line message for the user.
    pub fn message(&self) -> (text: String)
        ensures
            text@ == "Could not parse regex: "@ + self.reason@,
    {
        "Could not parse regex: ".to_owned().concat(self.reason.as_str())
    }
}

/// `RegexBuilder::new(source)`, `case_insensitive(..)` and `build()`: the
/// engine compiles the text or returns its error. Nothing else is configured,
/// so success depends on the text and the flag alone. The compiled regex is
/// handed back together with the model of the very text and flag that it was
/// built from; this is the one place where a `Pattern` is made.
#[verifier::external_body]
fn build_pattern(source: &str, case_insensitive: bool) -> (built: Result<Pattern, regex::Error>)
    ensures
        built is Ok <==> pattern_compiles(source@, case_insensitive),
        built matches Ok(pattern) ==> pattern@.source == source@ && pattern@.case_insensitive
            == case_insensitive,
{
    match RegexBuilder::new(source).case_insensitive(case_insensitive).build() {
        Ok(regex) => Ok(
            Pattern { regex, model: Ghost(PatternModel { source: source@, case_insensitive }) },
        ),
        Err(error) => Err(error),
    }
}

/// `Display` of `regex::Error`: the engine's own description of a failed
/// compilation. Nothing is claimed of the text.
#[verifier::external_body]
fn describe(error: &regex::Error) -> (text: String) {
    error.to_string()
}

/// `Regex::find` on `line`, reduced to the offsets of the match. The regex
/// searched with is the one that `build_pattern` compiled from the text and
/// flag of `pattern@`, so the answer is the leftmost match of that text.
#[verifier::external_body]
fn first_match(pattern: &Pattern, line: &str) -> (found: Option<(usize, usize)>)
    ensures
        found is Some <==> leftmost_match(pattern@.source, pattern@.case_insensitive, line@) is Some,
        found matches Some(span) ==> leftmost_match(
            pattern@.source,
            pattern@.case_insensitive,
            line@,
        ) == Some((span.0 as int, span.1 as int)),
{
    pattern.regex.find(line).map(|m| (m.start(), m.end()))
}

/// `Regex::replace_all` on `line`, with a replacer that decorates the whole
/// match, on the regex that `build_pattern` compiled from the text and flag
/// of `pattern@`. The engine copies `line`, putting the replacement in the place of
/// each non-overlapping match; without a match it returns `line` unchanged.
/// With colouring off each replacement is the matched text itself, so the
/// copy equals `line`; with colouring on each is the coloured match. This
/// takes for granted that nobody switches colouring while the call runs.
#[verifier::external_body]
fn replace_matches(pattern: &Pattern, line: &str) -> (out: String)
    ensures
        out@ == line@ || (leftmost_match(pattern@.source, pattern@.case_insensitive, line@) is Some
            && out@ == emphasized_from(
            line@,
            match_spans(pattern@.source, pattern@.case_insensitive, line@),
            0,
        )),
{
    pattern.regex.replace_all(line, |found: &Captures| decorate(&found[0], Style::Match)).into_owned()
}

/// Highlighting a copy of a line leaves the line and the pattern as they
/// were: a search of the line finds the same match at the same place before
/// and after it, whatever text the highlighting gave. And the highlighted
/// copy differs from the line only where the search finds something.
pub proof fn lemma_find_unchanged_by_highlight(
    pattern: PatternModel,
    line: Seq<char>,
    copy: Seq<char>,
    shown: Seq<char>,
)
    requires
        copy == line,
        pattern.is_highlight(copy, shown),
    ensures
        leftmost_match(pattern.source, pattern.case_insensitive, line) == leftmost_match(
            pattern.source,
            pattern.case_insensitive,
            copy,
        ),
        pattern.matches(line) == pattern.matches(copy),
        !pattern.matches(line) ==> shown == line,
{
}

impl Pattern {
    /// Compiles `source`, folding case if `case_insensitive` is set.
    pub fn compile(
        source: &str,
        case_insensitive: bool,
    ) -> (compiled: Result<Pattern, InvalidPattern>)
        ensures
            compiled is Ok <==> pattern_compiles(source@, case_insensitive),
            compiled matches Ok(pattern) ==> pattern@.source == source@
                && pattern@.case_insensitive == case_insensitive,
            compiled matches Err(error) ==> error.pattern@ == source@,
    {
        match build_pattern(source, case_insensitive) {
            Ok(pattern) => Ok(pattern),
            Err(error) => Err(
                InvalidPattern { pattern: source.to_owned(), reason: describe(&error) },
            ),
        }
    }

    /// Whether the pattern matches anywhere in `line`.
    pub fn find(&self, line: &str) -> (found: bool)
        ensures
            found == self@.matches(line@),
    {
        first_match(self, line).is_some()
    }

    /// A copy of `line` with every non-overlapping match emphasised and the
    /// rest of the text unchanged.
    pub fn highlight(&self, line: &str) -> (out: String)
        ensures
            self@.is_highlight(line@, out@),
            !self@.matches(line@) ==> out@ == line@,
    {
        replace_matches(self, line)
    }
}

} // verus!
