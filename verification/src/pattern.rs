//! Compiled patterns: a pattern's source text, its case rule, and the
//! matcher built from them.

use vstd::prelude::*;
use vstd::string::StringSliceAdditionalSpecFns;
use crate::span::{
    kept_spans,
    keep_ordered,
    lemma_first_candidate_kept,
    lemma_kept_spans_ordered,
    lemma_ordered_spans_disjoint,
    overlaps,
    span_fits,
    spans_ordered,
    MatchSpan,
};
use crate::text::copy_str;
use crate::wildcard::{escaped, regex_escape, wildcard_regex, wildcard_to_regex};

verus! {

/// `regex::Regex`, a compiled matcher. It is carried, never looked into.
#[verifier::external_type_specification]
#[verifier::external_body]
pub struct ExRegex(regex::Regex);

/// `regex::Error`, the reason why a pattern was rejected.
#[verifier::external_type_specification]
#[verifier::external_body]
pub struct ExRegexError(regex::Error);

/// The matcher that the regex engine builds from a source text and a case
/// rule, or `None` where the engine rejects the source.
pub uninterp spec fn regex_compiled(source: Seq<char>, case_insensitive: bool) -> Option<
    regex::Regex,
>;

/// Whether the matcher built from `source` finds a match anywhere in `text`.
pub uninterp spec fn regex_is_match(
    source: Seq<char>,
    case_insensitive: bool,
    text: Seq<char>,
) -> bool;

/// The byte ranges of `text`, in the order the regex engine reports them,
/// that the matcher built from `source` matches.
pub uninterp spec fn regex_find_iter(
    source: Seq<char>,
    case_insensitive: bool,
    text: Seq<char>,
) -> Seq<(usize, usize)>;

/// How a pattern's text is to be read.
#[derive(Clone, Copy, Debug, PartialEq, Eq, Structural)]
pub enum PatternKind {
    /// A file-name wildcard: `*` and `?` are wild, everything else literal,
    /// and the whole name must match.
    FileName,
    /// A literal substring.
    Literal,
    /// A regular expression, taken as written.
    Regex,
}

/// Why a pattern or a path pattern was refused.
#[derive(Debug)]
pub enum PatternError {
    /// The regex engine does not accept the pattern.
    InvalidPattern { pattern: String, detail: String },
    /// The combined path holds no `/` to split directory from file pattern.
    InvalidPathPattern,
}

/// What a compiled pattern stands for.
pub struct PatternView {
    pub source: Seq<char>,
    pub case_insensitive: bool,
}

/// An immutable compiled matcher over a source text and a case rule.
pub struct CompiledPattern {
    source: String,
    case_insensitive: bool,
    engine: regex::Regex,
}

/// The regex source that a pattern of the given kind compiles from.
pub open spec fn pattern_source(pattern: Seq<char>, kind: PatternKind) -> Seq<char> {
    match kind {
        PatternKind::FileName => wildcard_regex(pattern),
        PatternKind::Literal => escaped(pattern),
        PatternKind::Regex => pattern,
    }
}

impl View for CompiledPattern {
    type V = PatternView;

    closed spec fn view(&self) -> PatternView {
        PatternView { source: self.source@, case_insensitive: self.case_insensitive }
    }
}

/// Builds a matcher. Wraps `RegexBuilder::new`, `case_insensitive` and
/// `build`. Believed, not proved: the outcome depends on the source and
/// the case rule alone, so that it has a name; an error comes back exactly
/// where the engine rejects the source.
#[verifier::external_body]
fn regex_build(source: &str, case_insensitive: bool) -> (r: Result<regex::Regex, regex::Error>)
    ensures
        r is Ok <==> regex_compiled(source@, case_insensitive) is Some,
        r matches Ok(engine) ==> regex_compiled(source@, case_insensitive) == Some(engine),
{
    regex::RegexBuilder::new(source).case_insensitive(case_insensitive).build()
}

/// The engine's own words for a rejected pattern. Wraps the `Display` text
/// of `regex::Error`; nothing is claimed of it.
#[verifier::external_body]
fn regex_error_text(error: &regex::Error) -> String {
    error.to_string()
}

/// Wraps `Regex::is_match` on the pattern's matcher. Believed, not proved:
/// the answer depends only on the text and on the source and case rule
/// that the matcher was built from, which are those of the pattern.
#[verifier::external_body]
fn engine_is_match(pattern: &CompiledPattern, text: &str) -> (found: bool)
    ensures
        found == regex_is_match(pattern@.source, pattern@.case_insensitive, text@),
{
    pattern.engine.is_match(text)
}

/// Wraps `Regex::find_iter` on the pattern's matcher, and hands out the
/// start and end offset of each match in the order the iterator gives
/// them. Believed, not proved: the matches depend only on the text and on
/// the source and case rule that the matcher was built from; there is a
/// match exactly where `Regex::is_match` says so; and, as `Match::start`
/// and `Match::end` promise, each match starts no later than it ends, ends
/// within the text, and has both ends between characters. Nothing is
/// claimed of the order of the matches.
#[verifier::external_body]
fn engine_find_iter(pattern: &CompiledPattern, text: &str) -> (found: Vec<(usize, usize)>)
    ensures
        found@ == regex_find_iter(pattern@.source, pattern@.case_insensitive, text@),
        found.len() > 0 <==> regex_is_match(pattern@.source, pattern@.case_insensitive, text@),
        forall|i: int|
            0 <= i < found.len() ==> span_fits(
                MatchSpan { start: (#[trigger] found[i]).0, end: found[i].1 },
                text.spec_bytes(),
            ),
{
    pattern.engine.find_iter(text).map(|m| (m.start(), m.end())).collect()
}

impl CompiledPattern {
    /// The matcher is the one built from the pattern's source and case
    /// rule.
    #[verifier::type_invariant]
    spec fn engine_built_from_source(self) -> bool {
        regex_compiled(self.source@, self.case_insensitive) == Some(self.engine)
    }

    /// Compiles `pattern`, read as `kind` says, into a matcher. Fails with
    /// `InvalidPattern` exactly where the regex engine rejects the source
    /// that the pattern translates to.
    pub fn compile(pattern: &str, kind: PatternKind, case_insensitive: bool) -> (r: Result<
        CompiledPattern,
        PatternError,
    >)
        ensures
            r is Ok <==> regex_compiled(pattern_source(pattern@, kind), case_insensitive) is Some,
            r matches Ok(compiled) ==> compiled@ == (PatternView {
                source: pattern_source(pattern@, kind),
                case_insensitive,
            }),
            r matches Err(e) ==> (e matches PatternError::InvalidPattern { pattern: p, .. } && p@
                == pattern@),
    {
        let source = match kind {
            PatternKind::FileName => wildcard_to_regex(pattern),
            PatternKind::Literal => regex_escape(pattern),
            PatternKind::Regex => copy_str(pattern),
        };
        match regex_build(source.as_str(), case_insensitive) {
            Ok(engine) => Ok(CompiledPattern { source, case_insensitive, engine }),
            Err(error) => Err(
                PatternError::InvalidPattern {
                    pattern: copy_str(pattern),
                    detail: regex_error_text(&error),
                },
            ),
        }
    }

    /// The regex source this pattern was compiled from.
    pub fn source(&self) -> (r: &str)
        ensures
            r@ == self@.source,
    {
        self.source.as_str()
    }

    /// Whether matching ignores case.
    pub fn case_insensitive(&self) -> (r: bool)
        ensures
            r == self@.case_insensitive,
    {
        self.case_insensitive
    }

    /// Whether the pattern matches anywhere in `text`.
    pub fn is_match(&self, text: &str) -> (found: bool)
        ensures
            found == regex_is_match(self@.source, self@.case_insensitive, text@),
    {
        engine_is_match(self, text)
    }

    /// The matches of the pattern in `text`, left to right: each span lies
    /// within the text on character boundaries, and no span starts before
    /// the one before it has ended. There is at least one span exactly
    /// where the pattern matches the text.
    pub fn find_spans(&self, text: &str) -> (spans: Vec<MatchSpan>)
        ensures
            spans@ == kept_spans(
                regex_find_iter(self@.source, self@.case_insensitive, text@),
                text.spec_bytes(),
            ),
            spans_ordered(spans@, text.spec_bytes()),
            spans.len() > 0 <==> regex_is_match(self@.source, self@.case_insensitive, text@),
            forall|i: int, j: int|
                0 <= i < j < spans.len() ==> (#[trigger] spans[i]).start <= (#[trigger] spans[j]).start,
            forall|i: int, j: int|
                0 <= i < spans.len() && 0 <= j < spans.len() && i != j ==> !overlaps(
                    #[trigger] spans[i],
                    #[trigger] spans[j],
                ),
    {
        let found = engine_find_iter(self, text);
        let spans = keep_ordered(&found, text);
        proof {
            lemma_ordered_spans_disjoint(spans@, text.spec_bytes());
            lemma_kept_spans_ordered(found@, text.spec_bytes());
            if found.len() > 0 {
                assert(span_fits(
                    MatchSpan { start: found[0].0, end: found[0].1 },
                    text.spec_bytes(),
                ));
                lemma_first_candidate_kept(found@, text.spec_bytes());
            }
        }
        spans
    }
}

} // verus!
