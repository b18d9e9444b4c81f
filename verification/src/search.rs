//! Literal substring search over sequences of characters, and the
//! left-to-right, non-overlapping occurrences of a pattern in a line.

use vstd::prelude::*;

verus! {

/// A half-open range of character positions in a line.
#[derive(Clone, Copy, Debug, PartialEq, Eq, Structural)]
pub struct Span {
    /// The position of the first character.
    pub start: usize,
    /// The position after the last character.
    pub end: usize,
}

/// The ranges that a list of spans stand for.
pub open spec fn ranges(spans: Seq<Span>) -> Seq<(int, int)> {
    Seq::new(spans.len(), |i: int| (spans[i].start as int, spans[i].end as int))
}

/// `needle` stands in `hay` at position `at`.
pub open spec fn occurs_at(hay: Seq<char>, needle: Seq<char>, at: int) -> bool {
    &&& 0 <= at
    &&& at + needle.len() <= hay.len()
    &&& hay.subrange(at, at + needle.len()) =~= needle
}

/// `needle` stands somewhere in `hay`.
pub open spec fn contains_text(hay: Seq<char>, needle: Seq<char>) -> bool {
    exists|at: int| occurs_at(hay, needle, at)
}

/// No occurrence of `needle` in `hay` starts at a position in `[from, to)`.
pub open spec fn none_between(hay: Seq<char>, needle: Seq<char>, from: int, to: int) -> bool {
    forall|at: int| from <= at < to ==> !occurs_at(hay, needle, at)
}

/// The first position at or after `from` where `needle` stands in `hay`.
pub open spec fn next_occurrence(hay: Seq<char>, needle: Seq<char>, from: int) -> Option<int>
    decreases hay.len() - from,
{
    if from < 0 || from + needle.len() > hay.len() {
        None
    } else if occurs_at(hay, needle, from) {
        Some(from)
    } else {
        next_occurrence(hay, needle, from + 1)
    }
}

/// The occurrences of a non-empty `needle` in `hay` from position `from` on:
/// the leftmost one first, each later one sought after the end of the one
/// before it. An empty needle has none.
pub open spec fn spans_from(hay: Seq<char>, needle: Seq<char>, from: int) -> Seq<(int, int)>
    decreases hay.len() - from,
{
    if needle.len() == 0 || from < 0 || from + needle.len() > hay.len() {
        Seq::empty()
    } else if occurs_at(hay, needle, from) {
        seq![(from, from + needle.len())] + spans_from(hay, needle, from + needle.len())
    } else {
        spans_from(hay, needle, from + 1)
    }
}

/// The ranges follow one another without overlap inside `[from, len]`.
pub open spec fn spans_ordered(spans: Seq<(int, int)>, from: int, len: int) -> bool {
    &&& forall|i: int|
        0 <= i < spans.len() ==> from <= (#[trigger] spans[i]).0 <= spans[i].1 <= len
    &&& forall|i: int, j: int|
        0 <= i < j < spans.len() ==> (#[trigger] spans[i]).1 <= (#[trigger] spans[j]).0
}

/// What `next_occurrence` finds is the least position from `from` on at which
/// the needle stands; it finds nothing only where there is none.
pub proof fn lemma_next_occurrence(hay: Seq<char>, needle: Seq<char>, from: int)
    requires
        0 <= from,
    ensures
        match next_occurrence(hay, needle, from) {
            Some(at) => from <= at && occurs_at(hay, needle, at) && none_between(
                hay,
                needle,
                from,
                at,
            ),
            None => none_between(hay, needle, from, (hay.len() + 1) as int),
        },
    decreases hay.len() - from,
{
    if from + needle.len() > hay.len() {
    } else if occurs_at(hay, needle, from) {
    } else {
        lemma_next_occurrence(hay, needle, from + 1);
    }
}

/// A needle stands somewhere in the line exactly when a search from the
/// start finds it.
pub proof fn lemma_contains_iff_found(hay: Seq<char>, needle: Seq<char>)
    ensures
        contains_text(hay, needle) <==> next_occurrence(hay, needle, 0) is Some,
{
    lemma_next_occurrence(hay, needle, 0);
    if contains_text(hay, needle) {
        let at = choose|at: int| occurs_at(hay, needle, at);
        assert(0 <= at < hay.len() + 1);
    }
}

/// Positions at which the needle does not stand add no span.
pub proof fn lemma_spans_skip(hay: Seq<char>, needle: Seq<char>, from: int, to: int)
    requires
        0 <= from <= to,
        to + needle.len() <= hay.len() || to == from,
        none_between(hay, needle, from, to),
    ensures
        spans_from(hay, needle, from) == spans_from(hay, needle, to),
    decreases to - from,
{
    if from < to {
        assert(!occurs_at(hay, needle, from));
        lemma_spans_skip(hay, needle, from + 1, to);
    }
}

/// Where the needle stands nowhere from `from` on, there is no span.
pub proof fn lemma_spans_none(hay: Seq<char>, needle: Seq<char>, from: int)
    requires
        0 <= from,
        none_between(hay, needle, from, (hay.len() + 1) as int),
    ensures
        spans_from(hay, needle, from) == Seq::<(int, int)>::empty(),
    decreases hay.len() - from,
{
    if needle.len() == 0 || from + needle.len() > hay.len() {
    } else {
        assert(!occurs_at(hay, needle, from));
        lemma_spans_none(hay, needle, from + 1);
    }
}

/// The spans of a line are ordered, do not overlap, lie inside the line, and
/// each covers an occurrence of the needle.
pub proof fn lemma_spans_from_ordered(hay: Seq<char>, needle: Seq<char>, from: int)
    requires
        0 <= from,
    ensures
        spans_ordered(spans_from(hay, needle, from), from, hay.len() as int),
        forall|i: int|
            0 <= i < spans_from(hay, needle, from).len() ==> {
                let span = #[trigger] spans_from(hay, needle, from)[i];
                occurs_at(hay, needle, span.0) && span.1 == span.0 + needle.len()
            },
    decreases hay.len() - from,
{
    let spans = spans_from(hay, needle, from);
    if needle.len() == 0 || from + needle.len() > hay.len() {
    } else if occurs_at(hay, needle, from) {
        let next = from + needle.len();
        lemma_spans_from_ordered(hay, needle, next);
        let rest = spans_from(hay, needle, next);
        assert(spans[0] == (from, next));
        assert forall|i: int| 1 <= i < spans.len() implies spans[i] == rest[i - 1] by {}
        assert forall|i: int| 0 <= i < spans.len() implies from <= (#[trigger] spans[i]).0
            <= spans[i].1 <= hay.len() by {
            if i > 0 {
                assert(spans[i] == rest[i - 1]);
            }
        }
        assert forall|i: int, j: int| 0 <= i < j < spans.len() implies (#[trigger] spans[i]).1 <= (
        #[trigger] spans[j]).0 by {
            assert(spans[j] == rest[j - 1]);
            if i > 0 {
                assert(spans[i] == rest[i - 1]);
            }
        }
        assert forall|i: int| 0 <= i < spans.len() implies {
            let span = #[trigger] spans[i];
            occurs_at(hay, needle, span.0) && span.1 == span.0 + needle.len()
        } by {
            if i > 0 {
                assert(spans[i] == rest[i - 1]);
            }
        }
    } else {
        lemma_spans_from_ordered(hay, needle, from + 1);
    }
}

/// A line has a span exactly when the non-empty needle stands in it.
pub proof fn lemma_spans_nonempty(hay: Seq<char>, needle: Seq<char>)
    requires
        needle.len() > 0,
    ensures
        spans_from(hay, needle, 0).len() > 0 <==> contains_text(hay, needle),
{
    lemma_next_occurrence(hay, needle, 0);
    lemma_contains_iff_found(hay, needle);
    match next_occurrence(hay, needle, 0) {
        Some(at) => {
            lemma_spans_skip(hay, needle, 0, at);
        },
        None => {
            lemma_spans_none(hay, needle, 0);
        },
    }
}

/// Whether `needle` stands in `hay` at position `at`.
pub fn matches_at(hay: &Vec<char>, needle: &Vec<char>, at: usize) -> (found: bool)
    requires
        at + needle.len() <= hay.len(),
    ensures
        found == occurs_at(hay@, needle@, at as int),
{
    let mut k: usize = 0;
    while k < needle.len()
        invariant
            k <= needle.len(),
            at + needle.len() <= hay.len(),
            forall|j: int| 0 <= j < k ==> hay@[at + j] == needle@[j],
        decreases needle.len() - k,
    {
        if hay[at + k] != needle[k] {
            proof {
                let part = hay@.subrange(at as int, at + needle.len());
                assert(part[k as int] == hay@[at + k]);
            }
            return false;
        }
        k += 1;
    }
    true
}

/// The first position at or after `from` where `needle` stands in `hay`.
pub fn find_from(hay: &Vec<char>, needle: &Vec<char>, from: usize) -> (found: Option<usize>)
    ensures
        match found {
            Some(at) => next_occurrence(hay@, needle@, from as int) == Some(at as int),
            None => next_occurrence(hay@, needle@, from as int) is None,
        },
        match found {
            Some(at) => from <= at && occurs_at(hay@, needle@, at as int) && none_between(
                hay@,
                needle@,
                from as int,
                at as int,
            ),
            None => none_between(hay@, needle@, from as int, (hay@.len() + 1) as int),
        },
{
    proof {
        lemma_next_occurrence(hay@, needle@, from as int);
    }
    if needle.len() > hay.len() || from > hay.len() - needle.len() {
        return None;
    }
    let last: usize = hay.len() - needle.len();
    let mut at: usize = from;
    while at <= last
        invariant
            from <= at <= last + 1,
            last == hay.len() - needle.len(),
            needle.len() <= hay.len(),
            next_occurrence(hay@, needle@, at as int) == next_occurrence(
                hay@,
                needle@,
                from as int,
            ),
        decreases last + 1 - at,
    {
        if matches_at(hay, needle, at) {
            proof {
                lemma_next_occurrence(hay@, needle@, from as int);
            }
            return Some(at);
        }
        at += 1;
    }
    proof {
        lemma_next_occurrence(hay@, needle@, from as int);
    }
    None
}

/// The occurrences of `needle` in `hay`, leftmost first and without overlap.
pub fn find_spans(hay: &Vec<char>, needle: &Vec<char>) -> (spans: Vec<Span>)
    ensures
        ranges(spans@) == spans_from(hay@, needle@, 0),
        spans_ordered(ranges(spans@), 0, hay@.len() as int),
{
    let mut spans: Vec<Span> = Vec::new();
    proof {
        lemma_spans_from_ordered(hay@, needle@, 0);
        assert(ranges(spans@) =~= Seq::<(int, int)>::empty());
    }
    if needle.len() == 0 {
        return spans;
    }
    let mut from: usize = 0;
    loop
        invariant
            needle.len() > 0,
            from <= hay.len(),
            ranges(spans@) + spans_from(hay@, needle@, from as int) == spans_from(
                hay@,
                needle@,
                0,
            ),
            spans_ordered(spans_from(hay@, needle@, 0), 0, hay@.len() as int),
        ensures
            ranges(spans@) == spans_from(hay@, needle@, 0),
        decreases hay.len() - from,
    {
        match find_from(hay, needle, from) {
            Some(at) => {
                let end: usize = at + needle.len();
                proof {
                    lemma_spans_skip(hay@, needle@, from as int, at as int);
                    let rest = spans_from(hay@, needle@, end as int);
                    let grown = spans@.push(Span { start: at, end });
                    assert(ranges(grown) =~= ranges(spans@).push((at as int, end as int)));
                    assert(ranges(grown) + rest =~= ranges(spans@) + spans_from(
                        hay@,
                        needle@,
                        from as int,
                    ));
                }
                spans.push(Span { start: at, end });
                from = end;
            },
            None => {
                proof {
                    lemma_spans_none(hay@, needle@, from as int);
                    assert(ranges(spans@) + Seq::<(int, int)>::empty() =~= ranges(spans@));
                }
                break;
            },
        }
    }
    spans
}

} // verus!
