//! Sorting command-line tokens into options, the pattern and file arguments.

use vstd::prelude::*;
use vstd::string::*;
use crate::options::{flag_of, options_of, parse_flag, GrepOption};
use crate::text::{chars_of, lemma_texts_push, optional_text, texts};

verus! {

/// The class of one token.
#[derive(Clone, Copy, Debug, PartialEq, Eq, Structural)]
pub enum TokenKind {
    /// Shaped like an option, but not in the flag table: without effect.
    IgnoredOption,
    /// One of the flags.
    RecognizedOption,
    /// The search pattern.
    Pattern,
    /// A file to scan, named as it is.
    LiteralFile,
    /// A wildcard expression, to be expanded into files.
    Glob,
    /// A path without extension or wildcard: kept, and not scanned.
    BarePath,
}

/// A token is shaped like an option when it starts with a hyphen.
pub open spec fn is_option(token: Seq<char>) -> bool {
    token.len() > 0 && token[0] == '-'
}

/// A token holds the wildcard character.
pub open spec fn has_wildcard(token: Seq<char>) -> bool {
    exists|i: int| 0 <= i < token.len() && token[i] == '*'
}

/// Whether the path written as `path` has an extension, as the standard
/// library reads paths on the platform that the library is built for.
pub uninterp spec fn path_has_extension(path: Seq<char>) -> bool;

/// Calls `Path::extension` on the argument read as a path, and says whether
/// it found an extension. The contract gives that answer the name
/// `path_has_extension` of the argument's characters and claims nothing
/// else about it.
#[verifier::external_body]
fn has_extension(arg: &str) -> (present: bool)
    ensures
        present == path_has_extension(arg@),
{
    std::path::Path::new(arg).extension().is_some()
}

/// Some token before position `i` is not shaped like an option: the pattern
/// has been taken by then.
pub open spec fn pattern_seen_before(tokens: Seq<Seq<char>>, i: int) -> bool {
    exists|j: int| 0 <= j < i && j < tokens.len() && !is_option(#[trigger] tokens[j])
}

/// The class of a token, given whether the pattern has been taken before it
/// and whether the token has an extension or a wildcard.
pub open spec fn kind_given(token: Seq<char>, pattern_seen: bool, file_or_wildcard: bool) -> TokenKind {
    if is_option(token) {
        if flag_of(token) is Some {
            TokenKind::RecognizedOption
        } else {
            TokenKind::IgnoredOption
        }
    } else if !pattern_seen {
        TokenKind::Pattern
    } else if !file_or_wildcard {
        TokenKind::BarePath
    } else if has_wildcard(token) {
        TokenKind::Glob
    } else {
        TokenKind::LiteralFile
    }
}

/// The class of the token at position `i`.
pub open spec fn kind_of(tokens: Seq<Seq<char>>, i: int) -> TokenKind {
    kind_given(
        tokens[i],
        pattern_seen_before(tokens, i),
        path_has_extension(tokens[i]) || has_wildcard(tokens[i]),
    )
}

/// Those of the first `n` tokens that are of class `kind`, in their order.
pub open spec fn of_kind(tokens: Seq<Seq<char>>, kind: TokenKind, n: nat) -> Seq<Seq<char>>
    decreases n,
{
    if n == 0 {
        Seq::empty()
    } else {
        let before = of_kind(tokens, kind, (n - 1) as nat);
        if kind_of(tokens, n - 1) == kind {
            before.push(tokens[n - 1])
        } else {
            before
        }
    }
}

/// A token of this class names something to scan.
pub open spec fn is_file_argument(kind: TokenKind) -> bool {
    kind == TokenKind::LiteralFile || kind == TokenKind::Glob
}

/// Those of the first `n` tokens that name something to scan, files and
/// wildcard expressions together, in their order.
pub open spec fn file_arguments_of(tokens: Seq<Seq<char>>, n: nat) -> Seq<Seq<char>>
    decreases n,
{
    if n == 0 {
        Seq::empty()
    } else {
        let before = file_arguments_of(tokens, (n - 1) as nat);
        if is_file_argument(kind_of(tokens, n - 1)) {
            before.push(tokens[n - 1])
        } else {
            before
        }
    }
}

/// The search pattern among the tokens, if there is one.
pub open spec fn pattern_of(tokens: Seq<Seq<char>>) -> Option<Seq<char>> {
    let found = of_kind(tokens, TokenKind::Pattern, tokens.len());
    if found.len() == 0 {
        None
    } else {
        Some(found[0])
    }
}

/// The tokens of a command line, sorted.
#[derive(Debug)]
pub struct Classification {
    /// The options that the flags among the tokens turn on.
    pub options: GrepOption,
    /// The class of each token, in the order of the tokens.
    pub kinds: Vec<TokenKind>,
    /// The flags, as written.
    pub recognized_options: Vec<String>,
    /// The option-shaped tokens that are no flag.
    pub ignored_options: Vec<String>,
    /// The search pattern.
    pub pattern: Option<String>,
    /// The files named as they are.
    pub literal_files: Vec<String>,
    /// The wildcard expressions.
    pub glob_expressions: Vec<String>,
    /// The paths that are kept and not scanned.
    pub bare_paths: Vec<String>,
    /// The files and wildcard expressions together, in the order in which
    /// they were given: what is to be scanned.
    pub file_arguments: Vec<String>,
}

/// Every flag's token is shaped like an option.
pub proof fn lemma_flag_is_option(token: Seq<char>)
    ensures
        flag_of(token) is Some ==> is_option(token),
{
}

/// The pattern has been taken before position `i + 1` when it had been
/// taken before `i`, or the token at `i` is not shaped like an option.
pub proof fn lemma_seen_step(tokens: Seq<Seq<char>>, i: int)
    requires
        0 <= i < tokens.len(),
    ensures
        pattern_seen_before(tokens, i + 1) <==> (pattern_seen_before(tokens, i) || !is_option(
            tokens[i],
        )),
        !pattern_seen_before(tokens, 0),
{
    if pattern_seen_before(tokens, i + 1) {
        let j = choose|j: int| 0 <= j < i + 1 && j < tokens.len() && !is_option(#[trigger] tokens[j]);
        if j < i {
            assert(pattern_seen_before(tokens, i));
        }
    }
    if pattern_seen_before(tokens, i) {
        let j = choose|j: int| 0 <= j < i && j < tokens.len() && !is_option(#[trigger] tokens[j]);
        assert(0 <= j < i + 1 && !is_option(tokens[j]));
    }
    if !is_option(tokens[i]) {
        assert(0 <= i < i + 1 && !is_option(tokens[i]));
    }
}

/// At most one token is the pattern, and it is the first token that is not
/// shaped like an option: a token is the pattern exactly when it is not
/// option-shaped and every token before it is.
pub proof fn lemma_single_pattern(tokens: Seq<Seq<char>>, n: nat)
    requires
        n <= tokens.len(),
    ensures
        of_kind(tokens, TokenKind::Pattern, n).len() <= 1,
        of_kind(tokens, TokenKind::Pattern, n).len() == 1 <==> pattern_seen_before(
            tokens,
            n as int,
        ),
        forall|i: int|
            0 <= i < tokens.len() ==> (#[trigger] kind_of(tokens, i) == TokenKind::Pattern <==> (
                !is_option(tokens[i]) && forall|j: int| 0 <= j < i ==> is_option(#[trigger] tokens[j]))),
        forall|i: int, j: int|
            0 <= i < tokens.len() && 0 <= j < tokens.len() && kind_of(tokens, i)
                == TokenKind::Pattern && kind_of(tokens, j) == TokenKind::Pattern ==> i == j,
        forall|i: int|
            0 <= i < n && kind_of(tokens, i) == TokenKind::Pattern ==> of_kind(
                tokens,
                TokenKind::Pattern,
                n,
            ) == seq![tokens[i]],
    decreases n,
{
    assert forall|i: int| 0 <= i < tokens.len() implies (#[trigger] kind_of(tokens, i)
        == TokenKind::Pattern <==> (!is_option(tokens[i]) && forall|j: int|
        0 <= j < i ==> is_option(#[trigger] tokens[j]))) by {
        if pattern_seen_before(tokens, i) {
            let j = choose|j: int| 0 <= j < i && j < tokens.len() && !is_option(#[trigger] tokens[j]);
            assert(!is_option(tokens[j]));
        }
    }
    assert forall|i: int, j: int|
        0 <= i < tokens.len() && 0 <= j < tokens.len() && kind_of(tokens, i) == TokenKind::Pattern
            && kind_of(tokens, j) == TokenKind::Pattern implies i == j by {
        if i < j {
            assert(is_option(tokens[i]));
        }
        if j < i {
            assert(is_option(tokens[j]));
        }
    }
    if n == 0 {
    } else {
        let m = (n - 1) as nat;
        lemma_single_pattern(tokens, m);
        lemma_seen_step(tokens, m as int);
        if kind_of(tokens, m as int) == TokenKind::Pattern {
            assert(of_kind(tokens, TokenKind::Pattern, m).len() == 0);
            assert(of_kind(tokens, TokenKind::Pattern, n) =~= seq![tokens[m as int]]);
        }
    }
}

/// A class that holds a token among the first `n` has a token of that
/// class among them.
pub proof fn lemma_of_kind_member(tokens: Seq<Seq<char>>, kind: TokenKind, n: nat)
    requires
        of_kind(tokens, kind, n).len() > 0,
    ensures
        exists|i: int| 0 <= i < n && #[trigger] kind_of(tokens, i) == kind,
    decreases n,
{
    if n > 0 {
        if kind_of(tokens, n - 1) == kind {
        } else {
            lemma_of_kind_member(tokens, kind, (n - 1) as nat);
            let i = choose|i: int| 0 <= i < n - 1 && #[trigger] kind_of(tokens, i) == kind;
            assert(0 <= i < n && kind_of(tokens, i) == kind);
        }
    }
}

/// The pattern is the first token that is not shaped like an option, and
/// there is none exactly when every token is shaped like an option.
pub proof fn lemma_pattern_is_first_plain_token(tokens: Seq<Seq<char>>)
    ensures
        match pattern_of(tokens) {
            Some(pattern) => exists|i: int|
                0 <= i < tokens.len() && pattern == #[trigger] tokens[i] && !is_option(tokens[i])
                    && forall|j: int| 0 <= j < i ==> is_option(#[trigger] tokens[j]),
            None => forall|i: int| 0 <= i < tokens.len() ==> is_option(#[trigger] tokens[i]),
        },
{
    let n = tokens.len();
    let found = of_kind(tokens, TokenKind::Pattern, n);
    lemma_single_pattern(tokens, n);
    if found.len() > 0 {
        lemma_of_kind_member(tokens, TokenKind::Pattern, n);
        let i = choose|i: int| 0 <= i < n && #[trigger] kind_of(tokens, i) == TokenKind::Pattern;
        assert(found == seq![tokens[i]]);
        assert(found[0] == tokens[i]);
        assert(!is_option(tokens[i]) && forall|j: int| 0 <= j < i ==> is_option(#[trigger] tokens[j]));
    } else {
        assert forall|i: int| 0 <= i < tokens.len() implies is_option(#[trigger] tokens[i]) by {
            if !is_option(tokens[i]) {
                assert(pattern_seen_before(tokens, n as int));
            }
        }
    }
}

/// Every token falls into one class: the six classes together hold as many
/// tokens as there are.
pub proof fn lemma_partition_covers(tokens: Seq<Seq<char>>, n: nat)
    requires
        n <= tokens.len(),
    ensures
        of_kind(tokens, TokenKind::IgnoredOption, n).len() + of_kind(
            tokens,
            TokenKind::RecognizedOption,
            n,
        ).len() + of_kind(tokens, TokenKind::Pattern, n).len() + of_kind(
            tokens,
            TokenKind::LiteralFile,
            n,
        ).len() + of_kind(tokens, TokenKind::Glob, n).len() + of_kind(
            tokens,
            TokenKind::BarePath,
            n,
        ).len() == n,
    decreases n,
{
    if n > 0 {
        lemma_partition_covers(tokens, (n - 1) as nat);
    }
}

/// The tokens of a class are never fewer when more tokens are looked at.
pub proof fn lemma_of_kind_grows(tokens: Seq<Seq<char>>, kind: TokenKind, m: nat, n: nat)
    requires
        m <= n,
    ensures
        of_kind(tokens, kind, m).len() <= of_kind(tokens, kind, n).len(),
        forall|k: int|
            0 <= k < of_kind(tokens, kind, m).len() ==> of_kind(tokens, kind, n)[k] == of_kind(
                tokens,
                kind,
                m,
            )[k],
    decreases n,
{
    if m < n {
        lemma_of_kind_grows(tokens, kind, m, (n - 1) as nat);
    }
}

/// Order is kept: the token at position `i` stands in the list of its
/// class, at the place that counts the earlier tokens of that class.
pub proof fn lemma_token_position(tokens: Seq<Seq<char>>, i: int)
    requires
        0 <= i < tokens.len(),
    ensures
        ({
            let kind = kind_of(tokens, i);
            let place = of_kind(tokens, kind, i as nat).len() as int;
            let all = of_kind(tokens, kind, tokens.len());
            place < all.len() && all[place] == tokens[i]
        }),
{
    let kind = kind_of(tokens, i);
    lemma_of_kind_grows(tokens, kind, (i + 1) as nat, tokens.len());
}

/// Whether a token is shaped like an option.
pub fn is_option_token(arg: &str) -> (shaped: bool)
    ensures
        shaped == is_option(arg@),
{
    let cs = chars_of(arg);
    cs.len() > 0 && cs[0] == '-'
}

/// Whether a token holds the wildcard character.
pub fn contains_wildcard(arg: &str) -> (found: bool)
    ensures
        found == has_wildcard(arg@),
{
    let cs = chars_of(arg);
    let mut i: usize = 0;
    while i < cs.len()
        invariant
            i <= cs.len(),
            cs@ == arg@,
            forall|j: int| 0 <= j < i ==> cs@[j] != '*',
        decreases cs.len() - i,
    {
        if cs[i] == '*' {
            return true;
        }
        i += 1;
    }
    false
}

/// Whether a token names a file or a set of files: it has an extension, or
/// it holds a wildcard.
pub fn is_file_or_wildcard(arg: &str) -> (file: bool)
    ensures
        file == (path_has_extension(arg@) || has_wildcard(arg@)),
{
    has_extension(arg) || contains_wildcard(arg)
}

/// The class of a token, given whether the pattern has been taken before it
/// and whether the token names a file or a set of files.
pub fn classify_token(token: &str, pattern_seen: bool, file_or_wildcard: bool) -> (kind: TokenKind)
    ensures
        kind == kind_given(token@, pattern_seen, file_or_wildcard),
{
    if is_option_token(token) {
        if parse_flag(token).is_some() {
            TokenKind::RecognizedOption
        } else {
            TokenKind::IgnoredOption
        }
    } else if !pattern_seen {
        TokenKind::Pattern
    } else if !file_or_wildcard {
        TokenKind::BarePath
    } else if contains_wildcard(token) {
        TokenKind::Glob
    } else {
        TokenKind::LiteralFile
    }
}

/// Sorts the tokens of a command line in one pass from left to right.
pub fn classify(tokens: &Vec<String>) -> (sorted: Classification)
    ensures
        sorted.options == options_of(texts(tokens@)),
        sorted.kinds@.len() == tokens@.len(),
        forall|i: int| 0 <= i < tokens@.len() ==> sorted.kinds@[i] == kind_of(texts(tokens@), i),
        texts(sorted.recognized_options@) == of_kind(
            texts(tokens@),
            TokenKind::RecognizedOption,
            tokens@.len(),
        ),
        texts(sorted.ignored_options@) == of_kind(
            texts(tokens@),
            TokenKind::IgnoredOption,
            tokens@.len(),
        ),
        optional_text(sorted.pattern) == pattern_of(texts(tokens@)),
        texts(sorted.literal_files@) == of_kind(
            texts(tokens@),
            TokenKind::LiteralFile,
            tokens@.len(),
        ),
        texts(sorted.glob_expressions@) == of_kind(texts(tokens@), TokenKind::Glob, tokens@.len()),
        texts(sorted.bare_paths@) == of_kind(texts(tokens@), TokenKind::BarePath, tokens@.len()),
        texts(sorted.file_arguments@) == file_arguments_of(texts(tokens@), tokens@.len()),
{
    let ghost all = texts(tokens@);
    let mut options = GrepOption::new();
    let mut kinds: Vec<TokenKind> = Vec::new();
    let mut recognized_options: Vec<String> = Vec::new();
    let mut ignored_options: Vec<String> = Vec::new();
    let mut pattern: Option<String> = None;
    let mut literal_files: Vec<String> = Vec::new();
    let mut glob_expressions: Vec<String> = Vec::new();
    let mut bare_paths: Vec<String> = Vec::new();
    let mut file_arguments: Vec<String> = Vec::new();
    let mut i: usize = 0;
    proof {
        assert(all.take(0) =~= Seq::<Seq<char>>::empty());
        assert(texts(recognized_options@) =~= Seq::<Seq<char>>::empty());
        assert(texts(ignored_options@) =~= Seq::<Seq<char>>::empty());
        assert(texts(literal_files@) =~= Seq::<Seq<char>>::empty());
        assert(texts(glob_expressions@) =~= Seq::<Seq<char>>::empty());
        assert(texts(bare_paths@) =~= Seq::<Seq<char>>::empty());
        assert(texts(file_arguments@) =~= Seq::<Seq<char>>::empty());
    }
    while i < tokens.len()
        invariant
            i <= tokens.len(),
            all == texts(tokens@),
            options == options_of(all.take(i as int)),
            kinds@.len() == i,
            forall|j: int| 0 <= j < i ==> kinds@[j] == kind_of(all, j),
            pattern is Some <==> pattern_seen_before(all, i as int),
            of_kind(all, TokenKind::Pattern, i as nat) == match pattern {
                Some(p) => seq![p@],
                None => Seq::<Seq<char>>::empty(),
            },
            texts(recognized_options@) == of_kind(all, TokenKind::RecognizedOption, i as nat),
            texts(ignored_options@) == of_kind(all, TokenKind::IgnoredOption, i as nat),
            texts(literal_files@) == of_kind(all, TokenKind::LiteralFile, i as nat),
            texts(glob_expressions@) == of_kind(all, TokenKind::Glob, i as nat),
            texts(bare_paths@) == of_kind(all, TokenKind::BarePath, i as nat),
            texts(file_arguments@) == file_arguments_of(all, i as nat),
        decreases tokens.len() - i,
    {
        let token: &String = &tokens[i];
        let arg = token.as_str();
        proof {
            assert(all[i as int] == arg@);
            lemma_seen_step(all, i as int);
            lemma_flag_is_option(arg@);
            assert(all.take(i + 1).drop_last() =~= all.take(i as int));
            assert(all.take(i + 1).last() == arg@);
        }
        let shaped = is_option_token(arg);
        let seen = pattern.is_some();
        let file = if !shaped && seen {
            is_file_or_wildcard(arg)
        } else {
            false
        };
        let kind = classify_token(arg, seen, file);
        assert(kind == kind_of(all, i as int));
        let owned = token.clone();
        match kind {
            TokenKind::RecognizedOption => {
                options.match_arg(arg);
                proof {
                    lemma_texts_push(recognized_options@, owned);
                }
                recognized_options.push(owned);
            },
            TokenKind::IgnoredOption => {
                proof {
                    lemma_texts_push(ignored_options@, owned);
                }
                ignored_options.push(owned);
            },
            TokenKind::Pattern => {
                pattern = Some(owned);
            },
            TokenKind::LiteralFile => {
                let again = token.clone();
                proof {
                    lemma_texts_push(literal_files@, owned);
                    lemma_texts_push(file_arguments@, again);
                }
                literal_files.push(owned);
                file_arguments.push(again);
            },
            TokenKind::Glob => {
                let again = token.clone();
                proof {
                    lemma_texts_push(glob_expressions@, owned);
                    lemma_texts_push(file_arguments@, again);
                }
                glob_expressions.push(owned);
                file_arguments.push(again);
            },
            TokenKind::BarePath => {
                proof {
                    lemma_texts_push(bare_paths@, owned);
                }
                bare_paths.push(owned);
            },
        }
        kinds.push(kind);
        i += 1;
    }
    proof {
        assert(all.take(tokens@.len() as int) =~= all);
    }
    Classification {
        options,
        kinds,
        recognized_options,
        ignored_options,
        pattern,
        literal_files,
        glob_expressions,
        bare_paths,
        file_arguments,
    }
}

} // verus!
