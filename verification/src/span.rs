//! Match spans within one line, and the rule that keeps them in order.

use vstd::prelude::*;
use vstd::string::StringSliceAdditionalSpecFns;
use vstd::utf8::is_char_boundary;

verus! {

/// A half-open byte range `[start, end)` within one line.
#[derive(Clone, Copy, Debug, PartialEq, Eq, Structural)]
pub struct MatchSpan {
    pub start: usize,
    pub end: usize,
}

/// Two spans overlap when they share at least one byte.
pub open spec fn overlaps(a: MatchSpan, b: MatchSpan) -> bool {
    a.start < b.end && b.start < a.end
}

/// The span lies within the line and both its ends fall between characters.
pub open spec fn span_fits(span: MatchSpan, bytes: Seq<u8>) -> bool {
    &&& span.start <= span.end <= bytes.len()
    &&& is_char_boundary(bytes, span.start as int)
    &&& is_char_boundary(bytes, span.end as int)
}

/// Every span fits the line, and each span ends before any later one starts.
pub open spec fn spans_ordered(spans: Seq<MatchSpan>, bytes: Seq<u8>) -> bool {
    &&& forall|i: int| 0 <= i < spans.len() ==> span_fits(#[trigger] spans[i], bytes)
    &&& forall|i: int, j: int|
        0 <= i < j < spans.len() ==> (#[trigger] spans[i]).end <= (#[trigger] spans[j]).start
}

/// Where scanning resumes after the spans kept so far.
pub open spec fn resume_point(kept: Seq<MatchSpan>) -> int {
    if kept.len() == 0 {
        0
    } else {
        kept.last().end as int
    }
}

/// A candidate is kept when it starts at or after the resume point, lies
/// within the line and falls on character boundaries.
pub open spec fn admissible(candidate: (usize, usize), floor: int, bytes: Seq<u8>) -> bool {
    &&& floor <= candidate.0
    &&& span_fits(MatchSpan { start: candidate.0, end: candidate.1 }, bytes)
}

/// The spans kept from a list of candidates read left to right: the first
/// match wins, and a candidate that starts before the end of the last kept
/// span is dropped.
pub open spec fn kept_spans(candidates: Seq<(usize, usize)>, bytes: Seq<u8>) -> Seq<MatchSpan>
    decreases candidates.len(),
{
    if candidates.len() == 0 {
        Seq::empty()
    } else {
        let before = kept_spans(candidates.drop_last(), bytes);
        let last = candidates.last();
        if admissible(last, resume_point(before), bytes) {
            before.push(MatchSpan { start: last.0, end: last.1 })
        } else {
            before
        }
    }
}

/// Whatever the candidates are, the kept spans fit the line and come in
/// order without overlap.
pub proof fn lemma_kept_spans_ordered(candidates: Seq<(usize, usize)>, bytes: Seq<u8>)
    ensures
        spans_ordered(kept_spans(candidates, bytes), bytes),
        kept_spans(candidates, bytes).len() <= candidates.len(),
    decreases candidates.len(),
{
    if candidates.len() > 0 {
        lemma_kept_spans_ordered(candidates.drop_last(), bytes);
    }
}

/// Where the first candidate fits the line, at least one span is kept.
pub proof fn lemma_first_candidate_kept(candidates: Seq<(usize, usize)>, bytes: Seq<u8>)
    requires
        candidates.len() > 0,
        admissible(candidates[0], 0, bytes),
    ensures
        kept_spans(candidates, bytes).len() > 0,
    decreases candidates.len(),
{
    if candidates.len() > 1 {
        assert(candidates.drop_last()[0] == candidates[0]);
        lemma_first_candidate_kept(candidates.drop_last(), bytes);
    } else {
        assert(candidates.drop_last().len() == 0);
        assert(candidates.last() == candidates[0]);
    }
}

/// Spans that are ordered start in non-decreasing order, and no two of them
/// overlap.
pub proof fn lemma_ordered_spans_disjoint(spans: Seq<MatchSpan>, bytes: Seq<u8>)
    requires
        spans_ordered(spans, bytes),
    ensures
        forall|i: int, j: int|
            0 <= i < j < spans.len() ==> (#[trigger] spans[i]).start <= (#[trigger] spans[j]).start,
        forall|i: int, j: int|
            0 <= i < spans.len() && 0 <= j < spans.len() && i != j ==> !overlaps(
                #[trigger] spans[i],
                #[trigger] spans[j],
            ),
{
    assert forall|i: int, j: int| 0 <= i < j < spans.len() implies (#[trigger] spans[i]).start <= (
    #[trigger] spans[j]).start by {
        assert(span_fits(spans[i], bytes));
    }
    assert forall|i: int, j: int|
        0 <= i < spans.len() && 0 <= j < spans.len() && i != j implies !overlaps(
        #[trigger] spans[i],
        #[trigger] spans[j],
    ) by {
        assert(span_fits(spans[i], bytes));
        assert(span_fits(spans[j], bytes));
        if i < j {
            assert(spans[i].end <= spans[j].start);
        } else {
            assert(spans[j].end <= spans[i].start);
        }
    }
}

/// Keeps, from candidates read left to right, those that start at or after
/// the end of the last kept span and fit the line.
pub fn keep_ordered(candidates: &Vec<(usize, usize)>, text: &str) -> (kept: Vec<MatchSpan>)
    ensures
        kept@ == kept_spans(candidates@, text.spec_bytes()),
        spans_ordered(kept@, text.spec_bytes()),
{
    let ghost bytes = text.spec_bytes();
    let len = text.as_bytes().len();
    let mut kept: Vec<MatchSpan> = Vec::new();
    let mut floor: usize = 0;
    let mut i: usize = 0;
    while i < candidates.len()
        invariant
            i <= candidates.len(),
            bytes == text.spec_bytes(),
            len == bytes.len(),
            kept@ == kept_spans(candidates@.take(i as int), bytes),
            floor == resume_point(kept@),
        decreases candidates.len() - i,
    {
        let (start, end) = candidates[i];
        proof {
            let next = candidates@.take(i + 1);
            assert(next.drop_last() == candidates@.take(i as int));
            assert(next.last() == (start, end));
        }
        if floor <= start && start <= end && end <= len && text.is_char_boundary(start)
            && text.is_char_boundary(end) {
            kept.push(MatchSpan { start, end });
            floor = end;
        }
        i = i + 1;
    }
    proof {
        assert(candidates@.take(candidates.len() as int) == candidates@);
        lemma_kept_spans_ordered(candidates@, bytes);
    }
    kept
}

} // verus!
