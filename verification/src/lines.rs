//! The line scanner: splits a file's bytes into lines and decodes each line
//! as text.

use vstd::prelude::*;
use vstd::slice::slice_subrange;
use vstd::string::StringSliceAdditionalSpecFns;
use vstd::utf8::valid_utf8;

verus! {

/// The bytes `[start, end)` of a file that make up one line, without its
/// line terminator.
#[derive(Clone, Copy, Debug, PartialEq, Eq, Structural)]
pub struct LineRange {
    pub start: usize,
    pub end: usize,
}

/// Where the text of a line ends that starts at `start` and is closed by
/// the line feed at `feed`: a carriage return right before the line feed is
/// not part of the line.
pub open spec fn line_text_end(content: Seq<u8>, start: int, feed: int) -> int {
    if start < feed && content[feed - 1] == 13u8 {
        feed - 1
    } else {
        feed
    }
}

/// The lines still to come when the current line starts at `start` and has
/// been read up to `pos`.
pub open spec fn lines_from(content: Seq<u8>, start: int, pos: int) -> Seq<LineRange>
    decreases content.len() - pos,
{
    if pos < 0 || pos >= content.len() {
        if start < content.len() && pos == content.len() {
            seq![LineRange { start: start as usize, end: pos as usize }]
        } else {
            Seq::empty()
        }
    } else if content[pos] == 10u8 {
        seq![
            LineRange {
                start: start as usize,
                end: line_text_end(content, start, pos) as usize,
            },
        ] + lines_from(content, pos + 1, pos + 1)
    } else {
        lines_from(content, start, pos + 1)
    }
}

/// The lines of a file, first to last. Each line feed closes a line; a
/// final line needs no line feed, and content that ends in a line feed has
/// no empty line after it.
pub open spec fn lines_of(content: Seq<u8>) -> Seq<LineRange> {
    lines_from(content, 0, 0)
}

/// The line lies within the content at or after `floor` and holds no line
/// feed.
pub open spec fn line_within(content: Seq<u8>, floor: int, line: LineRange) -> bool {
    &&& floor <= line.start <= line.end <= content.len()
    &&& forall|j: int| line.start <= j < line.end ==> content[j] != 10u8
}

/// Every line lies within the content and holds no line feed.
pub proof fn lemma_lines_within(content: Seq<u8>, start: int, pos: int)
    requires
        0 <= start <= pos <= content.len() <= usize::MAX,
        forall|j: int| start <= j < pos ==> content[j] != 10u8,
    ensures
        forall|i: int|
            0 <= i < lines_from(content, start, pos).len() ==> line_within(
                content,
                start,
                #[trigger] lines_from(content, start, pos)[i],
            ),
    decreases content.len() - pos,
{
    let all = lines_from(content, start, pos);
    if pos < content.len() {
        if content[pos] == 10u8 {
            lemma_lines_within(content, pos + 1, pos + 1);
            let rest = lines_from(content, pos + 1, pos + 1);
            assert forall|i: int| 0 <= i < all.len() implies line_within(
                content,
                start,
                #[trigger] all[i],
            ) by {
                if i > 0 {
                    assert(all[i] == rest[i - 1]);
                    assert(line_within(content, pos + 1, rest[i - 1]));
                }
            }
        } else {
            lemma_lines_within(content, start, pos + 1);
            assert(all == lines_from(content, start, pos + 1));
        }
    } else {
        assert forall|i: int| 0 <= i < all.len() implies line_within(
            content,
            start,
            #[trigger] all[i],
        ) by {}
    }
}

/// Splits a file's bytes into lines at each line feed; a carriage return
/// right before the line feed is not part of the line.
pub fn scan_lines(content: &[u8]) -> (lines: Vec<LineRange>)
    ensures
        lines@ == lines_of(content@),
        forall|i: int| 0 <= i < lines.len() ==> line_within(content@, 0, #[trigger] lines[i]),
{
    let mut lines: Vec<LineRange> = Vec::new();
    let mut start: usize = 0;
    let mut pos: usize = 0;
    while pos < content.len()
        invariant
            start <= pos <= content.len(),
            lines@ + lines_from(content@, start as int, pos as int) == lines_of(content@),
        decreases content.len() - pos,
    {
        if content[pos] == 10u8 {
            let end = if start < pos && content[pos - 1] == 13u8 {
                pos - 1
            } else {
                pos
            };
            proof {
                let line = LineRange { start, end };
                let rest = lines_from(content@, pos + 1, pos + 1);
                assert(lines@.push(line) + rest == lines@ + (seq![line] + rest));
            }
            lines.push(LineRange { start, end });
            start = pos + 1;
        }
        pos = pos + 1;
    }
    if start < pos {
        proof {
            let line = LineRange { start, end: pos };
            assert(lines@.push(line) == lines@ + seq![line]);
        }
        lines.push(LineRange { start, end: pos });
    } else {
        proof {
            assert(lines@ + Seq::<LineRange>::empty() == lines@);
        }
    }
    proof {
        lemma_lines_within(content@, 0, 0);
    }
    lines
}

/// Decodes bytes as UTF-8 text. Wraps `std::str::from_utf8`, which gives
/// the text back over the same bytes, or fails where they are not UTF-8.
#[verifier::external_body]
pub(crate) fn decode_utf8_line(bytes: &[u8]) -> (r: Option<&str>)
    ensures
        r is Some <==> valid_utf8(bytes@),
        r matches Some(text) ==> text.spec_bytes() == bytes@,
{
    std::str::from_utf8(bytes).ok()
}

/// The text of one line, or `None` where the range does not lie within
/// the content or its bytes are not valid UTF-8.
pub fn line_text<'a>(content: &'a [u8], line: LineRange) -> (r: Option<&'a str>)
    ensures
        r is Some <==> line.start <= line.end <= content.len() && valid_utf8(
            line_bytes(content@, line),
        ),
        r matches Some(text) ==> text.spec_bytes() == line_bytes(content@, line),
{
    if line.start <= line.end && line.end <= content.len() {
        decode_utf8_line(slice_subrange(content, line.start, line.end))
    } else {
        None
    }
}

/// The bytes of one line.
pub open spec fn line_bytes(content: Seq<u8>, line: LineRange) -> Seq<u8> {
    content.subrange(line.start as int, line.end as int)
}

} // verus!
