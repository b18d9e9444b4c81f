//! Cutting a line into plain and highlighted segments, and the annotation
//! that goes in front of a reported line.

use vstd::prelude::*;
use vstd::string::*;
use crate::options::GrepOption;
use crate::search::{ranges, spans_ordered, Span};

verus! {

/// A piece of a reported line: its text, and whether it is to be highlighted.
#[derive(Clone, Debug)]
pub struct Segment {
    /// The characters of the piece, as they stand in the line.
    pub text: String,
    /// Whether the piece is an occurrence of the pattern.
    pub highlighted: bool,
}

/// The texts and marks that a list of segments stand for.
pub open spec fn segment_views(segments: Seq<Segment>) -> Seq<(Seq<char>, bool)> {
    Seq::new(segments.len(), |i: int| (segments[i].text@, segments[i].highlighted))
}

/// Where the text before span `n` begins: at the end of the span before it,
/// or at the start of the line.
pub open spec fn end_before(spans: Seq<(int, int)>, n: int) -> int {
    if n <= 0 {
        0
    } else {
        spans[n - 1].1
    }
}

/// The segments for the first `n` spans: for each span the plain text in
/// front of it, then its own text, highlighted.
pub open spec fn pieces(line: Seq<char>, spans: Seq<(int, int)>, n: nat) -> Seq<(Seq<char>, bool)>
    decreases n,
{
    if n == 0 {
        Seq::empty()
    } else {
        let span = spans[n - 1];
        pieces(line, spans, (n - 1) as nat).push(
            (line.subrange(end_before(spans, n - 1), span.0), false),
        ).push((line.subrange(span.0, span.1), true))
    }
}

/// The segments of a line with the given spans highlighted: the pieces for
/// every span, then the plain rest of the line. The plain pieces are there
/// even where they are empty.
pub open spec fn segments_of(line: Seq<char>, spans: Seq<(int, int)>) -> Seq<(Seq<char>, bool)> {
    pieces(line, spans, spans.len()).push(
        (line.subrange(end_before(spans, spans.len() as int), line.len() as int), false),
    )
}

/// The texts of the segments put together, marks dropped.
pub open spec fn plain_text(segments: Seq<(Seq<char>, bool)>) -> Seq<char>
    decreases segments.len(),
{
    if segments.len() == 0 {
        Seq::empty()
    } else {
        plain_text(segments.drop_last()) + segments.last().0
    }
}

/// Adding a segment adds its text at the end.
pub proof fn lemma_plain_text_push(segments: Seq<(Seq<char>, bool)>, segment: (Seq<char>, bool))
    ensures
        plain_text(segments.push(segment)) == plain_text(segments) + segment.0,
{
    assert(segments.push(segment).drop_last() =~= segments);
}

/// The pieces for the first `n` spans spell the line up to the end of span
/// `n - 1`.
pub proof fn lemma_pieces_text(line: Seq<char>, spans: Seq<(int, int)>, n: nat)
    requires
        spans_ordered(spans, 0, line.len() as int),
        n <= spans.len(),
    ensures
        pieces(line, spans, n).len() == 2 * n,
        0 <= end_before(spans, n as int) <= line.len(),
        plain_text(pieces(line, spans, n)) == line.subrange(0, end_before(spans, n as int)),
    decreases n,
{
    if n == 0 {
        assert(line.subrange(0, 0) =~= Seq::<char>::empty());
    } else {
        let m = (n - 1) as nat;
        lemma_pieces_text(line, spans, m);
        let span = spans[n - 1];
        let start = end_before(spans, n - 1);
        if n >= 2 {
            assert(spans[n - 2].1 <= spans[n - 1].0);
        }
        let plain = (line.subrange(start, span.0), false);
        let marked = (line.subrange(span.0, span.1), true);
        let front = pieces(line, spans, m);
        lemma_plain_text_push(front, plain);
        lemma_plain_text_push(front.push(plain), marked);
        assert(line.subrange(0, start) + plain.0 + marked.0 =~= line.subrange(0, span.1));
    }
}

/// Round trip: the segments of a line, put together without their marks,
/// are the line. There is one highlighted segment for each span, holding
/// the characters that the span covers.
pub proof fn lemma_segments_reconstruct(line: Seq<char>, spans: Seq<(int, int)>)
    requires
        spans_ordered(spans, 0, line.len() as int),
    ensures
        plain_text(segments_of(line, spans)) == line,
        segments_of(line, spans).len() == 2 * spans.len() + 1,
        forall|i: int|
            0 <= i < spans.len() ==> #[trigger] segments_of(line, spans)[2 * i + 1] == (
                line.subrange(spans[i].0, spans[i].1),
                true,
            ),
        forall|i: int|
            0 <= i <= spans.len() ==> !(#[trigger] segments_of(line, spans)[2 * i]).1,
{
    let n = spans.len();
    lemma_pieces_text(line, spans, n);
    let rest = (line.subrange(end_before(spans, n as int), line.len() as int), false);
    lemma_plain_text_push(pieces(line, spans, n), rest);
    assert(line.subrange(0, end_before(spans, n as int)) + rest.0 =~= line);
    assert forall|i: int| 0 <= i < spans.len() implies #[trigger] segments_of(line, spans)[2 * i
        + 1] == (line.subrange(spans[i].0, spans[i].1), true) by {
        lemma_pieces_at(line, spans, n, i);
    }
    assert forall|i: int| 0 <= i <= spans.len() implies !(#[trigger] segments_of(line, spans)[2
        * i]).1 by {
        if i < spans.len() {
            lemma_pieces_at(line, spans, n, i);
        }
    }
}

/// The two pieces that span `i` gives stand at positions `2 i` and `2 i + 1`.
pub proof fn lemma_pieces_at(line: Seq<char>, spans: Seq<(int, int)>, n: nat, i: int)
    requires
        0 <= i < n <= spans.len(),
    ensures
        pieces(line, spans, n).len() == 2 * n,
        pieces(line, spans, n)[2 * i] == (
            line.subrange(end_before(spans, i), spans[i].0),
            false,
        ),
        pieces(line, spans, n)[2 * i + 1] == (line.subrange(spans[i].0, spans[i].1), true),
    decreases n,
{
    lemma_pieces_len(line, spans, (n - 1) as nat);
    if i < n - 1 {
        lemma_pieces_at(line, spans, (n - 1) as nat, i);
    }
}

/// Each span gives two pieces.
pub proof fn lemma_pieces_len(line: Seq<char>, spans: Seq<(int, int)>, n: nat)
    ensures
        pieces(line, spans, n).len() == 2 * n,
    decreases n,
{
    if n > 0 {
        lemma_pieces_len(line, spans, (n - 1) as nat);
    }
}

/// Cuts `line` into segments, the given spans highlighted.
pub fn render_segments(line: &str, spans: &Vec<Span>) -> (segments: Vec<Segment>)
    requires
        spans_ordered(ranges(spans@), 0, line@.len() as int),
    ensures
        segment_views(segments@) == segments_of(line@, ranges(spans@)),
        plain_text(segment_views(segments@)) == line@,
{
    let ghost marks = ranges(spans@);
    let length: usize = line.unicode_len();
    let mut segments: Vec<Segment> = Vec::new();
    let mut from: usize = 0;
    let mut k: usize = 0;
    proof {
        assert(segment_views(segments@) =~= pieces(line@, marks, 0));
    }
    while k < spans.len()
        invariant
            marks == ranges(spans@),
            spans_ordered(marks, 0, line@.len() as int),
            length == line@.len(),
            k <= spans.len(),
            from == end_before(marks, k as int),
            from <= length,
            segment_views(segments@) == pieces(line@, marks, k as nat),
        decreases spans.len() - k,
    {
        let span = spans[k];
        proof {
            assert(marks[k as int] == (span.start as int, span.end as int));
            if k > 0 {
                assert(marks[k - 1].1 <= marks[k as int].0);
            }
        }
        let plain = Segment {
            text: line.substring_char(from, span.start).to_owned(),
            highlighted: false,
        };
        let marked = Segment {
            text: line.substring_char(span.start, span.end).to_owned(),
            highlighted: true,
        };
        proof {
            let grown = segments@.push(plain).push(marked);
            assert(segment_views(grown) =~= segment_views(segments@).push(
                (plain.text@, false),
            ).push((marked.text@, true)));
        }
        segments.push(plain);
        segments.push(marked);
        from = span.end;
        k += 1;
    }
    let rest = Segment { text: line.substring_char(from, length).to_owned(), highlighted: false };
    proof {
        assert(segment_views(segments@.push(rest)) =~= segment_views(segments@).push(
            (rest.text@, false),
        ));
        lemma_segments_reconstruct(line@, marks);
    }
    segments.push(rest);
    segments
}

/// The character of a decimal digit.
pub open spec fn digit(d: int) -> char {
    if d == 0 {
        '0'
    } else if d == 1 {
        '1'
    } else if d == 2 {
        '2'
    } else if d == 3 {
        '3'
    } else if d == 4 {
        '4'
    } else if d == 5 {
        '5'
    } else if d == 6 {
        '6'
    } else if d == 7 {
        '7'
    } else if d == 8 {
        '8'
    } else {
        '9'
    }
}

/// A number written in decimal digits, without leading zeros.
pub open spec fn decimal(n: nat) -> Seq<char>
    decreases n,
{
    if n < 10 {
        seq![digit(n as int)]
    } else {
        decimal(n / 10).push(digit((n % 10) as int))
    }
}

/// What follows each annotation: a colon and a space.
pub open spec fn separator() -> Seq<char> {
    seq![':', ' ']
}

/// The annotation in front of a reported line: the file's name where that
/// option is on, then the line's number where that option is on, each
/// followed by the separator.
pub open spec fn prefix_text(file_name: Seq<char>, line_number: nat, options: GrepOption) -> Seq<
    char,
> {
    let name = if options.print_filename {
        file_name + separator()
    } else {
        Seq::empty()
    };
    let number = if options.print_line_numbers {
        decimal(line_number) + separator()
    } else {
        Seq::empty()
    };
    name + number
}

/// The one-character string of a decimal digit.
pub fn digit_str(d: u8) -> (text: &'static str)
    requires
        d < 10,
    ensures
        text@ == seq![digit(d as int)],
{
    proof {
        reveal_strlit("0");
        reveal_strlit("1");
        reveal_strlit("2");
        reveal_strlit("3");
        reveal_strlit("4");
        reveal_strlit("5");
        reveal_strlit("6");
        reveal_strlit("7");
        reveal_strlit("8");
        reveal_strlit("9");
    }
    let text = if d == 0 {
        "0"
    } else if d == 1 {
        "1"
    } else if d == 2 {
        "2"
    } else if d == 3 {
        "3"
    } else if d == 4 {
        "4"
    } else if d == 5 {
        "5"
    } else if d == 6 {
        "6"
    } else if d == 7 {
        "7"
    } else if d == 8 {
        "8"
    } else {
        "9"
    };
    assert(text@ =~= seq![digit(d as int)]);
    text
}

/// Writes a number in decimal digits.
pub fn decimal_string(n: u128) -> (text: String)
    ensures
        text@ == decimal(n as nat),
    decreases n,
{
    if n < 10 {
        digit_str(n as u8).to_owned()
    } else {
        let mut text = decimal_string(n / 10);
        text.append(digit_str((n % 10) as u8));
        assert(text@ =~= decimal(n as nat));
        text
    }
}

/// The annotation in front of the line at the 0-based position `line_index`
/// of the file `file_name`; the number shown is 1-based.
pub fn annotation(file_name: &str, line_index: usize, options: &GrepOption) -> (prefix: String)
    ensures
        prefix@ == prefix_text(file_name@, (line_index + 1) as nat, *options),
{
    proof {
        reveal_strlit(": ");
    }
    let mut prefix = String::new();
    if options.print_filename {
        prefix.append(file_name);
        prefix.append(": ");
    }
    if options.print_line_numbers {
        let number = decimal_string(line_index as u128 + 1);
        prefix.append(number.as_str());
        prefix.append(": ");
    }
    assert(prefix@ =~= prefix_text(file_name@, (line_index + 1) as nat, *options));
    prefix
}

} // verus!
