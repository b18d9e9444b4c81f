//! Matching one line against the pattern, and reporting the matching lines
//! of a file.

use vstd::prelude::*;
use vstd::string::*;
use crate::error::GrepError;
use crate::options::GrepOption;
use crate::render::{
    annotation, plain_text, prefix_text, render_segments, segment_views, segments_of,
    lemma_segments_reconstruct, Segment,
};
use crate::search::{
    contains_text, find_from, find_spans, lemma_contains_iff_found, lemma_spans_from_ordered,
    ranges, spans_from, spans_ordered, Span,
};
use crate::text::{chars_of, texts};

verus! {

/// The lowercase form of a text, as the standard library computes it from
/// the Unicode tables it was built with. It may have more characters than
/// the text.
pub uninterp spec fn lowercase(text: Seq<char>) -> Seq<char>;

/// Calls `str::to_lowercase`. The contract gives the returned string the
/// name `lowercase` of the argument's characters and claims nothing else
/// about it: in particular not that it has as many characters as the
/// argument.
#[verifier::external_body]
fn to_lowercase(text: &str) -> (lowered: String)
    ensures
        lowered@ == lowercase(text@),
{
    text.to_lowercase()
}

/// The text that stands for `text` in a case-insensitive comparison: its
/// lowercase form. The empty text stands for itself.
pub open spec fn folded(text: Seq<char>) -> Seq<char> {
    if text.len() == 0 {
        text
    } else {
        lowercase(text)
    }
}

/// The text that is searched, or searched for, in place of `text`.
pub open spec fn search_text(text: Seq<char>, options: GrepOption) -> Seq<char> {
    if options.case_insensitive {
        folded(text)
    } else {
        text
    }
}

/// Whether a line is reported, given the text searched and the text sought:
/// never for an empty pattern, else when the pattern's presence differs
/// from the inversion option.
pub open spec fn outcome_matches(hay: Seq<char>, needle: Seq<char>, invert: bool) -> bool {
    needle.len() > 0 && (contains_text(hay, needle) != invert)
}

/// The spans to highlight in a reported line. There are none unless
/// colour is on and the match is not inverted. Spans are found in the text
/// searched and shown in the line itself, so there are none either where
/// the two differ in length, or the pattern and the text sought do.
pub open spec fn outcome_spans(
    line_len: nat,
    pattern_len: nat,
    hay: Seq<char>,
    needle: Seq<char>,
    options: GrepOption,
) -> Seq<(int, int)> {
    if options.colored_output && !options.invert_match && hay.len() == line_len && needle.len()
        == pattern_len {
        spans_from(hay, needle, 0)
    } else {
        Seq::empty()
    }
}

/// Whether `line` is reported for `pattern` under `options`.
pub open spec fn line_matches(line: Seq<char>, pattern: Seq<char>, options: GrepOption) -> bool {
    outcome_matches(search_text(line, options), search_text(pattern, options), options.invert_match)
}

/// The spans highlighted in `line` where it is reported.
pub open spec fn highlights(line: Seq<char>, pattern: Seq<char>, options: GrepOption) -> Seq<
    (int, int),
> {
    outcome_spans(
        line.len(),
        pattern.len(),
        search_text(line, options),
        search_text(pattern, options),
        options,
    )
}

/// The options with the inversion option flipped.
pub open spec fn inverted(options: GrepOption) -> GrepOption {
    GrepOption { invert_match: !options.invert_match, ..options }
}

/// The options with case-insensitivity off.
pub open spec fn case_sensitive(options: GrepOption) -> GrepOption {
    GrepOption { case_insensitive: false, ..options }
}

/// What the matcher says of one line.
#[derive(Debug)]
pub enum MatchResult {
    /// The line is not reported.
    NoMatch,
    /// The line is reported, with these spans highlighted.
    Matched(Vec<Span>),
}

/// A line as it is reported.
#[derive(Debug)]
pub struct RenderedLine {
    /// The annotation in front of the line.
    pub prefix: String,
    /// The line, cut into plain and highlighted pieces.
    pub segments: Vec<Segment>,
}

/// What a reported line stands for: its annotation and its segments.
pub open spec fn rendered_view(line: RenderedLine) -> (Seq<char>, Seq<(Seq<char>, bool)>) {
    (line.prefix@, segment_views(line.segments@))
}

/// What a list of reported lines stands for.
pub open spec fn rendered_views(lines: Seq<RenderedLine>) -> Seq<
    (Seq<char>, Seq<(Seq<char>, bool)>),
> {
    Seq::new(lines.len(), |i: int| rendered_view(lines[i]))
}

/// The report of the line at 0-based position `index` of a file, if the
/// line is reported.
pub open spec fn rendered(
    file_name: Seq<char>,
    index: nat,
    line: Seq<char>,
    pattern: Seq<char>,
    options: GrepOption,
) -> Option<(Seq<char>, Seq<(Seq<char>, bool)>)> {
    if line_matches(line, pattern, options) {
        Some(
            (
                prefix_text(file_name, index + 1, options),
                segments_of(line, highlights(line, pattern, options)),
            ),
        )
    } else {
        None
    }
}

/// The reports of the first `n` lines of a file, in the order of the
/// lines.
pub open spec fn report(
    file_name: Seq<char>,
    lines: Seq<Seq<char>>,
    pattern: Seq<char>,
    options: GrepOption,
    n: nat,
) -> Seq<(Seq<char>, Seq<(Seq<char>, bool)>)>
    decreases n,
{
    if n == 0 {
        Seq::empty()
    } else {
        let before = report(file_name, lines, pattern, options, (n - 1) as nat);
        match rendered(file_name, (n - 1) as nat, lines[n - 1], pattern, options) {
            Some(line) => before.push(line),
            None => before,
        }
    }
}

/// A case-insensitive match of a line and a pattern is the case-sensitive
/// match of their folded forms.
pub proof fn lemma_case_fold_pure(line: Seq<char>, pattern: Seq<char>, options: GrepOption)
    requires
        options.case_insensitive,
    ensures
        line_matches(line, pattern, options) == line_matches(
            folded(line),
            folded(pattern),
            case_sensitive(options),
        ),
{
}

/// Inverting twice gives back the options, and with them the outcome. For
/// a pattern that is sought at all, inverting once turns the outcome round.
pub proof fn lemma_inversion_involution(line: Seq<char>, pattern: Seq<char>, options: GrepOption)
    ensures
        inverted(inverted(options)) == options,
        line_matches(line, pattern, inverted(inverted(options))) == line_matches(
            line,
            pattern,
            options,
        ),
        search_text(pattern, options).len() > 0 ==> line_matches(line, pattern, inverted(options))
            == !line_matches(line, pattern, options),
{
}

/// An empty pattern matches no line, whatever the options.
pub proof fn lemma_empty_pattern_never_matches(line: Seq<char>, pattern: Seq<char>, options: GrepOption)
    requires
        pattern.len() == 0,
    ensures
        !line_matches(line, pattern, options),
{
}

/// The highlighted spans of a line are ordered, do not overlap and lie
/// inside the line, so the segments of the line spell the line.
pub proof fn lemma_highlights_reconstruct(line: Seq<char>, pattern: Seq<char>, options: GrepOption)
    ensures
        spans_ordered(highlights(line, pattern, options), 0, line.len() as int),
        plain_text(segments_of(line, highlights(line, pattern, options))) == line,
        options.invert_match || !options.colored_output ==> segments_of(
            line,
            highlights(line, pattern, options),
        ) == seq![(line, false)],
{
    let spans = highlights(line, pattern, options);
    lemma_spans_from_ordered(search_text(line, options), search_text(pattern, options), 0);
    lemma_segments_reconstruct(line, spans);
    if options.invert_match || !options.colored_output {
        assert(line.subrange(0, line.len() as int) =~= line);
        assert(segments_of(line, spans) =~= seq![(line, false)]);
    }
}

/// The text to compare in place of `text` when case is ignored.
pub fn fold_case(text: &str) -> (out: String)
    ensures
        out@ == folded(text@),
{
    if text.unicode_len() == 0 {
        text.to_owned()
    } else {
        to_lowercase(text)
    }
}

/// Decides one line from the text searched `hay` and the text sought
/// `needle`, for a line of `line_len` and a pattern of `pattern_len`
/// characters.
pub fn evaluate_searched(
    line_len: usize,
    pattern_len: usize,
    hay: &Vec<char>,
    needle: &Vec<char>,
    options: &GrepOption,
) -> (result: MatchResult)
    ensures
        result is Matched <==> outcome_matches(hay@, needle@, options.invert_match),
        result matches MatchResult::Matched(spans) ==> {
            &&& ranges(spans@) == outcome_spans(
                line_len as nat,
                pattern_len as nat,
                hay@,
                needle@,
                *options,
            )
            &&& spans_ordered(ranges(spans@), 0, line_len as int)
        },
{
    if needle.len() == 0 {
        return MatchResult::NoMatch;
    }
    proof {
        lemma_contains_iff_found(hay@, needle@);
    }
    let found = find_from(hay, needle, 0).is_some();
    if found == options.invert_match {
        return MatchResult::NoMatch;
    }
    if options.colored_output && !options.invert_match && hay.len() == line_len && needle.len()
        == pattern_len {
        MatchResult::Matched(find_spans(hay, needle))
    } else {
        let spans: Vec<Span> = Vec::new();
        assert(ranges(spans@) =~= Seq::<(int, int)>::empty());
        MatchResult::Matched(spans)
    }
}

/// Decides whether `line` is reported for `pattern`, and which spans of it
/// are highlighted.
pub fn evaluate_line(line: &str, pattern: &str, options: &GrepOption) -> (result: MatchResult)
    ensures
        result is Matched <==> line_matches(line@, pattern@, *options),
        result matches MatchResult::Matched(spans) ==> {
            &&& ranges(spans@) == highlights(line@, pattern@, *options)
            &&& spans_ordered(ranges(spans@), 0, line@.len() as int)
        },
{
    let line_len = line.unicode_len();
    let pattern_len = pattern.unicode_len();
    if options.case_insensitive {
        let hay = chars_of(fold_case(line).as_str());
        let needle = chars_of(fold_case(pattern).as_str());
        evaluate_searched(line_len, pattern_len, &hay, &needle, options)
    } else {
        let hay = chars_of(line);
        let needle = chars_of(pattern);
        evaluate_searched(line_len, pattern_len, &hay, &needle, options)
    }
}

/// Reports the line at 0-based position `line_index` of the file
/// `file_name`, or nothing where the line does not match.
pub fn render_line(
    file_name: &str,
    line_index: usize,
    line: &str,
    pattern: &str,
    options: &GrepOption,
) -> (out: Option<RenderedLine>)
    ensures
        out is Some <==> line_matches(line@, pattern@, *options),
        match out {
            Some(shown) => Some(rendered_view(shown)),
            None => None,
        } == rendered(file_name@, line_index as nat, line@, pattern@, *options),
        out matches Some(shown) ==> plain_text(segment_views(shown.segments@)) == line@,
{
    match evaluate_line(line, pattern, options) {
        MatchResult::NoMatch => None,
        MatchResult::Matched(spans) => {
            let prefix = annotation(file_name, line_index, options);
            let segments = render_segments(line, &spans);
            Some(RenderedLine { prefix, segments })
        },
    }
}

/// Reports the matching lines of a file whose lines have been read, in
/// their order. Without a pattern nothing is matched and the file is
/// answered with `MissingPattern`.
pub fn process_file(
    file_name: &str,
    lines: &Vec<String>,
    pattern: &Option<String>,
    options: &GrepOption,
) -> (out: Result<Vec<RenderedLine>, GrepError>)
    ensures
        out is Err <==> pattern is None,
        out matches Err(error) ==> error == GrepError::MissingPattern,
        out matches Ok(shown) ==> rendered_views(shown@) == report(
            file_name@,
            texts(lines@),
            pattern->Some_0@,
            *options,
            lines@.len(),
        ),
{
    let sought: &String = match pattern {
        Some(sought) => sought,
        None => {
            return Err(GrepError::MissingPattern);
        },
    };
    let mut shown: Vec<RenderedLine> = Vec::new();
    let mut index: usize = 0;
    proof {
        assert(rendered_views(shown@) =~= Seq::empty());
    }
    while index < lines.len()
        invariant
            index <= lines.len(),
            pattern == Some(*sought),
            rendered_views(shown@) == report(
                file_name@,
                texts(lines@),
                sought@,
                *options,
                index as nat,
            ),
        decreases lines.len() - index,
    {
        let line = lines[index].as_str();
        assert(texts(lines@)[index as int] == line@);
        match render_line(file_name, index, line, sought.as_str(), options) {
            Some(rendered_line) => {
                proof {
                    assert(rendered_views(shown@.push(rendered_line)) =~= rendered_views(
                        shown@,
                    ).push(rendered_view(rendered_line)));
                }
                shown.push(rendered_line);
            },
            None => {},
        }
        index += 1;
    }
    Ok(shown)
}

} // verus!
