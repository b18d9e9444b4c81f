use linegrep::error::GrepError;
use linegrep::options::GrepOption;
use linegrep::render::{annotation, decimal_string, digit_str, render_segments, Segment};
use linegrep::scan::{
    evaluate_line, evaluate_searched, fold_case, process_file, render_line, MatchResult,
    RenderedLine,
};
use linegrep::search::{find_from, find_spans, matches_at, Span};
use linegrep::text::chars_of;

fn off() -> GrepOption {
    GrepOption::new()
}

fn spans_of(result: MatchResult) -> Option<Vec<(usize, usize)>> {
    match result {
        MatchResult::NoMatch => None,
        MatchResult::Matched(spans) => Some(spans.iter().map(|s| (s.start, s.end)).collect()),
    }
}

fn shown(segments: &[Segment]) -> Vec<(String, bool)> {
    segments.iter().map(|s| (s.text.clone(), s.highlighted)).collect()
}

fn pieces(items: &[(&str, bool)]) -> Vec<(String, bool)> {
    items.iter().map(|(t, h)| (t.to_string(), *h)).collect()
}

fn joined(segments: &[Segment]) -> String {
    segments.iter().map(|s| s.text.as_str()).collect()
}

fn cs(text: &str) -> Vec<char> {
    text.chars().collect()
}

#[test]
fn chars_of_lists_the_characters() {
    assert_eq!(chars_of(""), Vec::<char>::new());
    assert_eq!(chars_of("ab*"), vec!['a', 'b', '*']);
    assert_eq!(chars_of("na\u{ef}ve"), vec!['n', 'a', '\u{ef}', 'v', 'e']);
}

#[test]
fn matches_at_compares_in_place() {
    assert!(matches_at(&cs("abcabc"), &cs("abc"), 0));
    assert!(matches_at(&cs("abcabc"), &cs("abc"), 3));
    assert!(!matches_at(&cs("abcabc"), &cs("abc"), 1));
    assert!(matches_at(&cs("abc"), &cs(""), 3));
}

#[test]
fn find_from_gives_the_first_position_at_or_after() {
    assert_eq!(find_from(&cs("abcabc"), &cs("abc"), 0), Some(0));
    assert_eq!(find_from(&cs("abcabc"), &cs("abc"), 1), Some(3));
    assert_eq!(find_from(&cs("abcabc"), &cs("abc"), 3), Some(3));
    assert_eq!(find_from(&cs("abcabc"), &cs("abc"), 4), None);
    assert_eq!(find_from(&cs("abcabc"), &cs("abd"), 0), None);
    assert_eq!(find_from(&cs("ab"), &cs("abc"), 0), None);
    assert_eq!(find_from(&cs("abc"), &cs("abc"), 7), None);
    assert_eq!(find_from(&cs(""), &cs("a"), 0), None);
    assert_eq!(find_from(&cs("xxab"), &cs("ab"), 0), Some(2));
}

#[test]
fn find_spans_is_leftmost_and_without_overlap() {
    let got = |h: &str, n: &str| -> Vec<(usize, usize)> {
        find_spans(&cs(h), &cs(n)).iter().map(|s| (s.start, s.end)).collect()
    };
    assert_eq!(got("abcabc", "abc"), vec![(0, 3), (3, 6)]);
    assert_eq!(got("aaaa", "aa"), vec![(0, 2), (2, 4)]);
    assert_eq!(got("aaa", "aa"), vec![(0, 2)]);
    assert_eq!(got("aaaaa", "aa"), vec![(0, 2), (2, 4)]);
    assert_eq!(got("abababa", "aba"), vec![(0, 3), (4, 7)]);
    assert_eq!(got("x-y-z", "-"), vec![(1, 2), (3, 4)]);
    assert_eq!(got("hello", "xyz"), vec![]);
    assert_eq!(got("hello", ""), vec![]);
    assert_eq!(got("", "a"), vec![]);
    assert_eq!(got("hello", "hello"), vec![(0, 5)]);
    assert_eq!(got("hello", "hello!"), vec![]);
}

#[test]
fn case_insensitive_highlight_keeps_the_lines_case() {
    let options = GrepOption { case_insensitive: true, colored_output: true, ..off() };
    assert_eq!(spans_of(evaluate_line("the Quick fox", "quick", &options)), Some(vec![(4, 9)]));
    let line = render_line("f", 0, "the Quick fox", "quick", &options).unwrap();
    assert_eq!(shown(&line.segments), pieces(&[("the ", false), ("Quick", true), (" fox", false)]));
    assert_eq!(line.prefix, "");
}

#[test]
fn case_insensitive_without_colour_matches_plain() {
    let options = GrepOption { case_insensitive: true, ..off() };
    assert_eq!(spans_of(evaluate_line("the Quick fox", "quick", &options)), Some(vec![]));
    assert_eq!(spans_of(evaluate_line("the Quick fox", "quick", &off())), None);
    let line = render_line("f", 0, "the Quick fox", "QUICK", &options).unwrap();
    assert_eq!(shown(&line.segments), pieces(&[("the Quick fox", false)]));
}

#[test]
fn adjacent_occurrences_have_an_empty_piece_between() {
    let options = GrepOption { colored_output: true, ..off() };
    assert_eq!(spans_of(evaluate_line("abcabc", "abc", &options)), Some(vec![(0, 3), (3, 6)]));
    let line = render_line("f", 0, "abcabc", "abc", &options).unwrap();
    assert_eq!(
        shown(&line.segments),
        pieces(&[("", false), ("abc", true), ("", false), ("abc", true), ("", false)])
    );
}

#[test]
fn inverted_match_is_never_highlighted() {
    let options = GrepOption { invert_match: true, colored_output: true, ..off() };
    assert_eq!(spans_of(evaluate_line("hello", "xyz", &options)), Some(vec![]));
    let line = render_line("f", 0, "hello", "xyz", &options).unwrap();
    assert_eq!(shown(&line.segments), pieces(&[("hello", false)]));
    assert_eq!(spans_of(evaluate_line("hello", "ell", &options)), None);
    assert!(render_line("f", 0, "hello", "ell", &options).is_none());
}

#[test]
fn without_pattern_every_file_reports_missing_pattern() {
    let lines = vec!["alpha".to_string(), "beta".to_string()];
    for options in [off(), GrepOption { invert_match: true, ..off() }] {
        for name in ["a.txt", "b.txt"] {
            match process_file(name, &lines, &None, &options) {
                Err(error) => assert_eq!(error, GrepError::MissingPattern),
                Ok(_) => panic!("a file was scanned without a pattern"),
            }
        }
    }
}

#[test]
fn empty_pattern_never_matches() {
    for options in [
        off(),
        GrepOption { invert_match: true, ..off() },
        GrepOption { case_insensitive: true, ..off() },
        GrepOption { case_insensitive: true, invert_match: true, colored_output: true, ..off() },
        GrepOption { colored_output: true, ..off() },
    ] {
        assert_eq!(spans_of(evaluate_line("hello", "", &options)), None);
        assert_eq!(spans_of(evaluate_line("", "", &options)), None);
        assert!(render_line("f", 0, "hello", "", &options).is_none());
    }
}

#[test]
fn plain_match_and_no_match() {
    assert_eq!(spans_of(evaluate_line("hello world", "o w", &off())), Some(vec![]));
    assert_eq!(spans_of(evaluate_line("hello world", "ow", &off())), None);
    assert_eq!(spans_of(evaluate_line("", "a", &off())), None);
    assert_eq!(spans_of(evaluate_line("a", "a", &off())), Some(vec![]));
    assert_eq!(spans_of(evaluate_line("Hello", "hello", &off())), None);
}

#[test]
fn inversion_turns_the_outcome_round() {
    for (line, pattern) in [("hello", "ell"), ("hello", "xyz"), ("", "a"), ("Abc", "abc")] {
        for ci in [false, true] {
            let plain = GrepOption { case_insensitive: ci, ..off() };
            let inv = GrepOption { invert_match: true, ..plain };
            let a = spans_of(evaluate_line(line, pattern, &plain)).is_some();
            let b = spans_of(evaluate_line(line, pattern, &inv)).is_some();
            assert_eq!(a, !b, "{:?} {:?}", line, pattern);
            let back = GrepOption { invert_match: !inv.invert_match, ..inv };
            assert_eq!(back, plain);
            assert_eq!(spans_of(evaluate_line(line, pattern, &back)).is_some(), a);
        }
    }
}

#[test]
fn case_insensitive_match_is_the_match_of_the_lowercased_texts() {
    let ci = GrepOption { case_insensitive: true, ..off() };
    for (line, pattern) in [
        ("the Quick fox", "QUICK"),
        ("the Quick fox", "slow"),
        ("\u{c9}COLE", "\u{e9}cole"),
        ("Stra\u{df}e", "STRASSE"),
        ("", "A"),
    ] {
        for invert in [false, true] {
            let with = GrepOption { invert_match: invert, ..ci };
            let without = GrepOption { invert_match: invert, ..off() };
            let a = spans_of(evaluate_line(line, pattern, &with)).is_some();
            let b = spans_of(evaluate_line(&fold_case(line), &fold_case(pattern), &without)).is_some();
            assert_eq!(a, b, "{:?} {:?}", line, pattern);
            let c = spans_of(evaluate_line(&line.to_lowercase(), &pattern.to_lowercase(), &without))
                .is_some();
            assert_eq!(a, c, "{:?} {:?}", line, pattern);
        }
    }
}

#[test]
fn fold_case_lowercases() {
    assert_eq!(fold_case(""), "");
    assert_eq!(fold_case("The QUICK fox"), "the quick fox");
    assert_eq!(fold_case("\u{c9}COLE"), "\u{e9}cole");
    assert_eq!(fold_case("already lower 123"), "already lower 123");
}

#[test]
fn spans_count_characters_not_bytes() {
    let options = GrepOption { colored_output: true, ..off() };
    let line = "na\u{ef}ve caf\u{e9} caf\u{e9}";
    assert_eq!(spans_of(evaluate_line(line, "caf\u{e9}", &options)), Some(vec![(6, 10), (11, 15)]));
    let out = render_line("f", 0, line, "caf\u{e9}", &options).unwrap();
    assert_eq!(
        shown(&out.segments),
        pieces(&[
            ("na\u{ef}ve ", false),
            ("caf\u{e9}", true),
            (" ", false),
            ("caf\u{e9}", true),
            ("", false)
        ])
    );
    assert_eq!(joined(&out.segments), line);
}

#[test]
fn case_insensitive_highlight_of_accented_text() {
    let options = GrepOption { case_insensitive: true, colored_output: true, ..off() };
    let out = render_line("f", 0, "\u{c9}cole et \u{e9}COLE", "\u{c9}COLE", &options).unwrap();
    assert_eq!(
        shown(&out.segments),
        pieces(&[("", false), ("\u{c9}cole", true), (" et ", false), ("\u{e9}COLE", true), ("", false)])
    );
}

#[test]
fn folding_that_changes_the_length_leaves_the_line_plain() {
    let options = GrepOption { case_insensitive: true, colored_output: true, ..off() };
    let line = "\u{130}stanbul x";
    assert_ne!(line.to_lowercase().chars().count(), line.chars().count());
    assert_eq!(spans_of(evaluate_line(line, "x", &options)), Some(vec![]));
    let out = render_line("f", 0, line, "x", &options).unwrap();
    assert_eq!(shown(&out.segments), pieces(&[(line, false)]));
    assert_eq!(spans_of(evaluate_line("xi\u{307}y", "\u{130}", &options)), Some(vec![]));
    assert_eq!(spans_of(evaluate_line(line, "q", &options)), None);
}

#[test]
fn evaluate_searched_decides_from_the_texts_it_is_given() {
    let colour = GrepOption { colored_output: true, ..off() };
    let got = |ll: usize, pl: usize, h: &str, n: &str, o: &GrepOption| {
        spans_of(evaluate_searched(ll, pl, &cs(h), &cs(n), o))
    };
    assert_eq!(got(6, 3, "abcabc", "abc", &colour), Some(vec![(0, 3), (3, 6)]));
    assert_eq!(got(6, 3, "abcabc", "abc", &off()), Some(vec![]));
    assert_eq!(got(5, 3, "abcabc", "abc", &colour), Some(vec![]));
    assert_eq!(got(6, 2, "abcabc", "abc", &colour), Some(vec![]));
    assert_eq!(got(6, 3, "abcabc", "abd", &colour), None);
    assert_eq!(got(6, 0, "abcabc", "", &colour), None);
    let inverted = GrepOption { invert_match: true, ..colour };
    assert_eq!(got(6, 3, "abcabc", "abd", &inverted), Some(vec![]));
    assert_eq!(got(6, 3, "abcabc", "abc", &inverted), None);
    assert_eq!(got(6, 0, "abcabc", "", &inverted), None);
}

#[test]
fn segments_spell_the_line() {
    let options = GrepOption { colored_output: true, ..off() };
    for (line, pattern) in [
        ("abcabc", "abc"),
        ("xxabcxxabcxx", "abc"),
        ("aaaaa", "aa"),
        ("hello", "hello"),
        ("hello", "l"),
        ("a b  c", " "),
    ] {
        let out = render_line("f", 3, line, pattern, &options).unwrap();
        assert_eq!(joined(&out.segments), line);
        let marked: Vec<&Segment> = out.segments.iter().filter(|s| s.highlighted).collect();
        assert!(marked.iter().all(|s| s.text == pattern));
        assert_eq!(out.segments.len(), 2 * marked.len() + 1);
        for (i, s) in out.segments.iter().enumerate() {
            assert_eq!(s.highlighted, i % 2 == 1);
        }
    }
}

#[test]
fn render_segments_cuts_at_the_spans() {
    let spans = vec![Span { start: 1, end: 2 }, Span { start: 2, end: 4 }];
    assert_eq!(
        shown(&render_segments("abcdef", &spans)),
        pieces(&[("a", false), ("b", true), ("", false), ("cd", true), ("ef", false)])
    );
    assert_eq!(shown(&render_segments("abc", &Vec::new())), pieces(&[("abc", false)]));
    assert_eq!(shown(&render_segments("", &Vec::new())), pieces(&[("", false)]));
    let whole = vec![Span { start: 0, end: 3 }];
    assert_eq!(
        shown(&render_segments("abc", &whole)),
        pieces(&[("", false), ("abc", true), ("", false)])
    );
    let empty = vec![Span { start: 1, end: 1 }];
    assert_eq!(
        shown(&render_segments("abc", &empty)),
        pieces(&[("a", false), ("", true), ("bc", false)])
    );
}

#[test]
fn digits_and_decimal_numbers() {
    let all: Vec<&str> = (0u8..10).map(digit_str).collect();
    assert_eq!(all, vec!["0", "1", "2", "3", "4", "5", "6", "7", "8", "9"]);
    assert_eq!(decimal_string(0), "0");
    assert_eq!(decimal_string(7), "7");
    assert_eq!(decimal_string(10), "10");
    assert_eq!(decimal_string(109), "109");
    assert_eq!(decimal_string(1234567890), "1234567890");
    assert_eq!(decimal_string(u128::MAX), "340282366920938463463374607431768211455");
}

#[test]
fn annotation_is_name_then_number() {
    let name = GrepOption { print_filename: true, ..off() };
    let number = GrepOption { print_line_numbers: true, ..off() };
    let both = GrepOption { print_filename: true, print_line_numbers: true, ..off() };
    assert_eq!(annotation("a.txt", 0, &off()), "");
    assert_eq!(annotation("a.txt", 0, &name), "a.txt: ");
    assert_eq!(annotation("a.txt", 0, &number), "1: ");
    assert_eq!(annotation("a.txt", 41, &number), "42: ");
    assert_eq!(annotation("dir/a.txt", 9, &both), "dir/a.txt: 10: ");
    assert_eq!(annotation("", 99, &both), ": 100: ");
    let last = annotation("f", usize::MAX, &number);
    assert_eq!(last, format!("{}: ", usize::MAX as u128 + 1));
}

#[test]
fn annotation_does_not_depend_on_match_or_colour() {
    let options = GrepOption {
        print_filename: true,
        print_line_numbers: true,
        invert_match: true,
        colored_output: true,
        ..off()
    };
    let out = render_line("log.txt", 4, "hello", "xyz", &options).unwrap();
    assert_eq!(out.prefix, "log.txt: 5: ");
    let options = GrepOption { invert_match: false, ..options };
    let out = render_line("log.txt", 4, "hello", "ll", &options).unwrap();
    assert_eq!(out.prefix, "log.txt: 5: ");
    assert_eq!(shown(&out.segments), pieces(&[("he", false), ("ll", true), ("o", false)]));
}

fn report(lines: &[RenderedLine]) -> Vec<(String, Vec<(String, bool)>)> {
    lines.iter().map(|l| (l.prefix.clone(), shown(&l.segments))).collect()
}

#[test]
fn process_file_reports_the_matching_lines_in_order() {
    let lines: Vec<String> =
        ["one fish", "two fish", "red", "blue fish fish", ""].iter().map(|s| s.to_string()).collect();
    let pattern = Some("fish".to_string());
    let options = GrepOption { print_line_numbers: true, colored_output: true, ..off() };
    let out = process_file("f.txt", &lines, &pattern, &options).unwrap();
    assert_eq!(
        report(&out),
        vec![
            ("1: ".to_string(), pieces(&[("one ", false), ("fish", true), ("", false)])),
            ("2: ".to_string(), pieces(&[("two ", false), ("fish", true), ("", false)])),
            (
                "4: ".to_string(),
                pieces(&[("blue ", false), ("fish", true), (" ", false), ("fish", true), ("", false)])
            ),
        ]
    );
    let inverted = GrepOption { invert_match: true, print_filename: true, ..options };
    let out = process_file("f.txt", &lines, &pattern, &inverted).unwrap();
    assert_eq!(
        report(&out),
        vec![
            ("f.txt: 3: ".to_string(), pieces(&[("red", false)])),
            ("f.txt: 5: ".to_string(), pieces(&[("", false)])),
        ]
    );
}

#[test]
fn process_file_with_nothing_to_report() {
    let pattern = Some("x".to_string());
    assert_eq!(report(&process_file("f", &Vec::new(), &pattern, &off()).unwrap()), vec![]);
    let lines = vec!["abc".to_string()];
    assert_eq!(report(&process_file("f", &lines, &pattern, &off()).unwrap()), vec![]);
    let empty = Some(String::new());
    assert_eq!(report(&process_file("f", &lines, &empty, &off()).unwrap()), vec![]);
}
