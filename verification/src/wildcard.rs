//! File-name wildcards and their translation to anchored regex source.

use vstd::prelude::*;
use crate::pattern::PatternError;
use crate::text::{chars_of, last_index_of, lemma_last_index_of, push_char, rfind_char, substring};

verus! {

/// The characters that have a meaning of their own in a regex.
pub open spec fn is_meta_character(c: char) -> bool {
    c == '\\' || c == '.' || c == '+' || c == '*' || c == '?' || c == '(' || c == ')' || c == '|'
        || c == '[' || c == ']' || c == '{' || c == '}' || c == '^' || c == '$' || c == '#' || c
        == '&' || c == '-' || c == '~'
}

/// One character as a regex literal: a backslash goes before a
/// metacharacter.
pub open spec fn escape_unit(c: char) -> Seq<char> {
    if is_meta_character(c) {
        seq!['\\', c]
    } else {
        seq![c]
    }
}

/// A text as a regex literal.
pub open spec fn escaped(text: Seq<char>) -> Seq<char>
    decreases text.len(),
{
    if text.len() == 0 {
        Seq::empty()
    } else {
        escaped(text.drop_last()) + escape_unit(text.last())
    }
}

/// One wildcard character as regex source: `*` is any run of characters,
/// `?` any one character, `-` stays as it is, and every other character is
/// taken literally.
pub open spec fn wildcard_unit(c: char) -> Seq<char> {
    if c == '*' {
        seq!['.', '*']
    } else if c == '?' {
        seq!['.']
    } else if c == '-' {
        seq!['-']
    } else {
        escape_unit(c)
    }
}

/// A wildcard as regex source, without anchors.
pub open spec fn wildcard_body(pattern: Seq<char>) -> Seq<char>
    decreases pattern.len(),
{
    if pattern.len() == 0 {
        Seq::empty()
    } else {
        wildcard_body(pattern.drop_last()) + wildcard_unit(pattern.last())
    }
}

/// A wildcard as regex source that the whole file name must match.
pub open spec fn wildcard_regex(pattern: Seq<char>) -> Seq<char> {
    seq!['^'] + wildcard_body(pattern) + seq!['$']
}

/// The regex source of a wildcard starts with `^` and ends with `$`, so
/// that it matches whole names only.
pub proof fn lemma_wildcard_is_anchored(pattern: Seq<char>)
    ensures
        wildcard_regex(pattern).len() >= 2,
        wildcard_regex(pattern).first() == '^',
        wildcard_regex(pattern).last() == '$',
{
}

/// Escapes a text for literal use in a regex. Wraps `regex::escape`, which
/// copies the text and puts a backslash before each metacharacter.
#[verifier::external_body]
pub(crate) fn regex_escape(text: &str) -> (r: String)
    ensures
        r@ == escaped(text@),
{
    regex::escape(text)
}

/// Escaping goes part by part: the literal of a joined text is the literals
/// of its parts, joined.
pub proof fn lemma_escaped_concat(a: Seq<char>, b: Seq<char>)
    ensures
        escaped(a + b) == escaped(a) + escaped(b),
    decreases b.len(),
{
    if b.len() == 0 {
        assert(a + b == a);
    } else {
        assert((a + b).drop_last() == a + b.drop_last());
        lemma_escaped_concat(a, b.drop_last());
    }
}

/// A regex literal is at least as long as the text it stands for.
pub proof fn lemma_escaped_len(text: Seq<char>)
    ensures
        escaped(text).len() >= text.len(),
    decreases text.len(),
{
    if text.len() > 0 {
        lemma_escaped_len(text.drop_last());
    }
}

proof fn lemma_escaped_split(text: Seq<char>, k: int)
    requires
        0 <= k < text.len(),
    ensures
        escaped(text) == escaped(text.take(k)) + escape_unit(text[k]) + escaped(text.skip(k + 1)),
        escaped(text.take(k + 1)) == escaped(text.take(k)) + escape_unit(text[k]),
        wildcard_body(text.take(k + 1)) == wildcard_body(text.take(k)) + wildcard_unit(text[k]),
{
    assert(text.take(k + 1).drop_last() == text.take(k));
    assert(text == text.take(k + 1) + text.skip(k + 1));
    lemma_escaped_concat(text.take(k + 1), text.skip(k + 1));
}

/// Translates a file-name wildcard to regex source: the text is escaped,
/// `*` and `?` become their regex equivalents, `-` is left bare, and the
/// result is anchored at both ends.
pub fn wildcard_to_regex(pattern: &str) -> (r: String)
    ensures
        r@ == wildcard_regex(pattern@),
{
    let literal = regex_escape(pattern);
    let e = chars_of(literal.as_str());
    let ghost p = pattern@;
    let mut out = String::new();
    push_char(&mut out, '^');
    let mut i: usize = 0;
    let ghost mut k: int = 0;
    while i < e.len()
        invariant
            e@ == escaped(p),
            0 <= k <= p.len(),
            i == escaped(p.take(k)).len(),
            i <= e.len(),
            out@ == seq!['^'] + wildcard_body(p.take(k)),
        decreases e.len() - i,
    {
        proof {
            if k == p.len() {
                assert(p.take(k) == p);
            }
            lemma_escaped_split(p, k);
        }
        let c = e[i];
        if c == '\\' && i + 1 < e.len() {
            let d = e[i + 1];
            if d == '*' {
                push_char(&mut out, '.');
                push_char(&mut out, '*');
            } else if d == '?' {
                push_char(&mut out, '.');
            } else if d == '-' {
                push_char(&mut out, '-');
            } else {
                push_char(&mut out, '\\');
                push_char(&mut out, d);
            }
            i = i + 2;
        } else {
            push_char(&mut out, c);
            i = i + 1;
        }
        proof {
            k = k + 1;
        }
    }
    proof {
        if k < p.len() {
            lemma_escaped_split(p, k);
            lemma_escaped_len(p.skip(k + 1));
        }
        assert(p.take(k) == p);
    }
    push_char(&mut out, '$');
    out
}

/// Splits a combined `path/pattern` text at its last `/`: what comes before
/// is the directory to scan, what comes after is a file-name wildcard,
/// returned as anchored regex source. A text without `/` is refused.
pub fn extract_path_and_pattern(input: &str) -> (r: Result<(String, String), PatternError>)
    ensures
        r is Err <==> !input@.contains('/'),
        r matches Err(e) ==> e is InvalidPathPattern,
        r matches Ok((dir, file_pattern)) ==> {
            let k = last_index_of(input@, '/');
            &&& 0 <= k < input@.len()
            &&& dir@ == input@.take(k)
            &&& file_pattern@ == wildcard_regex(input@.skip(k + 1))
        },
{
    let chars = chars_of(input);
    proof {
        lemma_last_index_of(input@, '/');
    }
    match rfind_char(&chars, '/') {
        Some(k) => {
            let dir = substring(&chars, 0, k);
            let wildcard = substring(&chars, k + 1, chars.len());
            let file_pattern = wildcard_to_regex(wildcard.as_str());
            proof {
                assert(chars@.subrange(0, k as int) == input@.take(k as int));
                assert(chars@.subrange(k + 1, chars.len() as int) == input@.skip(k + 1));
            }
            Ok((dir, file_pattern))
        },
        None => Err(PatternError::InvalidPathPattern),
    }
}

} // verus!
