//! The option record and the fixed table of flags that fill it.

use vstd::prelude::*;
use crate::text::chars_of;

verus! {

/// One of the recognised command-line flags.
#[derive(Clone, Copy, Debug, PartialEq, Eq, Structural)]
pub enum Flag {
    /// `-i`
    CaseInsensitive,
    /// `-n`
    LineNumbers,
    /// `-v`
    Invert,
    /// `-r`
    Recursive,
    /// `-f`
    Filename,
    /// `-c`
    Color,
    /// `-h` or `--help`
    Help,
}

/// The search options, each off until its flag is seen.
#[derive(Clone, Copy, Debug, PartialEq, Eq, Structural)]
pub struct GrepOption {
    /// `-i`: compare lines and pattern after lowercasing both.
    pub case_insensitive: bool,
    /// `-n`: prefix each reported line with its 1-based number.
    pub print_line_numbers: bool,
    /// `-v`: report the lines that do not contain the pattern.
    pub invert_match: bool,
    /// `-r`: accepted, without effect.
    pub recursive_search: bool,
    /// `-f`: prefix each reported line with the file's name.
    pub print_filename: bool,
    /// `-c`: highlight the occurrences of the pattern.
    pub colored_output: bool,
    /// `-h`, `--help`: show the usage text and search nothing.
    pub show_help: bool,
}

/// The token `-c` for a flag letter `c`.
pub open spec fn short_flag(letter: char) -> Seq<char> {
    seq!['-', letter]
}

/// The token `--help`.
pub open spec fn long_help() -> Seq<char> {
    seq!['-', '-', 'h', 'e', 'l', 'p']
}

/// The flag that a token names, if it names one.
pub open spec fn flag_of(token: Seq<char>) -> Option<Flag> {
    if token =~= short_flag('i') {
        Some(Flag::CaseInsensitive)
    } else if token =~= short_flag('n') {
        Some(Flag::LineNumbers)
    } else if token =~= short_flag('v') {
        Some(Flag::Invert)
    } else if token =~= short_flag('r') {
        Some(Flag::Recursive)
    } else if token =~= short_flag('f') {
        Some(Flag::Filename)
    } else if token =~= short_flag('c') {
        Some(Flag::Color)
    } else if token =~= short_flag('h') || token =~= long_help() {
        Some(Flag::Help)
    } else {
        None
    }
}

/// The options after every token of `tokens` has been applied, left to right.
pub open spec fn options_of(tokens: Seq<Seq<char>>) -> GrepOption
    decreases tokens.len(),
{
    if tokens.len() == 0 {
        GrepOption::none()
    } else {
        options_of(tokens.drop_last()).apply(tokens.last())
    }
}

/// Whether some token of `tokens` names `flag`.
pub open spec fn flag_given(tokens: Seq<Seq<char>>, flag: Flag) -> bool {
    exists|i: int| 0 <= i < tokens.len() && flag_of(#[trigger] tokens[i]) == Some(flag)
}

impl GrepOption {
    /// The record with every option off.
    pub open spec fn none() -> GrepOption {
        GrepOption {
            case_insensitive: false,
            print_line_numbers: false,
            invert_match: false,
            recursive_search: false,
            print_filename: false,
            colored_output: false,
            show_help: false,
        }
    }

    /// Whether the option that `flag` stands for is on.
    pub open spec fn has(self, flag: Flag) -> bool {
        match flag {
            Flag::CaseInsensitive => self.case_insensitive,
            Flag::LineNumbers => self.print_line_numbers,
            Flag::Invert => self.invert_match,
            Flag::Recursive => self.recursive_search,
            Flag::Filename => self.print_filename,
            Flag::Color => self.colored_output,
            Flag::Help => self.show_help,
        }
    }

    /// The record with the option of `flag` on and the others as they were.
    pub open spec fn enable(self, flag: Flag) -> GrepOption {
        match flag {
            Flag::CaseInsensitive => GrepOption { case_insensitive: true, ..self },
            Flag::LineNumbers => GrepOption { print_line_numbers: true, ..self },
            Flag::Invert => GrepOption { invert_match: true, ..self },
            Flag::Recursive => GrepOption { recursive_search: true, ..self },
            Flag::Filename => GrepOption { print_filename: true, ..self },
            Flag::Color => GrepOption { colored_output: true, ..self },
            Flag::Help => GrepOption { show_help: true, ..self },
        }
    }

    /// The record after one token: a flag's token turns its option on, any
    /// other token changes nothing.
    pub open spec fn apply(self, token: Seq<char>) -> GrepOption {
        match flag_of(token) {
            Some(flag) => self.enable(flag),
            None => self,
        }
    }

    /// A record with every option off.
    pub fn new() -> (options: GrepOption)
        ensures
            options == GrepOption::none(),
    {
        GrepOption {
            case_insensitive: false,
            print_line_numbers: false,
            invert_match: false,
            recursive_search: false,
            print_filename: false,
            colored_output: false,
            show_help: false,
        }
    }

    /// Turns on the option that `arg` names; a token that names none is ignored.
    pub fn match_arg(&mut self, arg: &str)
        ensures
            *final(self) == old(self).apply(arg@),
    {
        match parse_flag(arg) {
            Some(Flag::CaseInsensitive) => self.case_insensitive = true,
            Some(Flag::LineNumbers) => self.print_line_numbers = true,
            Some(Flag::Invert) => self.invert_match = true,
            Some(Flag::Recursive) => self.recursive_search = true,
            Some(Flag::Filename) => self.print_filename = true,
            Some(Flag::Color) => self.colored_output = true,
            Some(Flag::Help) => self.show_help = true,
            None => {},
        }
    }
}

/// Looks a token up in the flag table.
pub fn parse_flag(arg: &str) -> (flag: Option<Flag>)
    ensures
        flag == flag_of(arg@),
{
    let cs = chars_of(arg);
    if cs.len() == 2 && cs[0] == '-' {
        let letter = cs[1];
        if letter == 'i' {
            Some(Flag::CaseInsensitive)
        } else if letter == 'n' {
            Some(Flag::LineNumbers)
        } else if letter == 'v' {
            Some(Flag::Invert)
        } else if letter == 'r' {
            Some(Flag::Recursive)
        } else if letter == 'f' {
            Some(Flag::Filename)
        } else if letter == 'c' {
            Some(Flag::Color)
        } else if letter == 'h' {
            Some(Flag::Help)
        } else {
            None
        }
    } else if cs.len() == 6 && cs[0] == '-' && cs[1] == '-' && cs[2] == 'h' && cs[3] == 'e'
        && cs[4] == 'l' && cs[5] == 'p' {
        Some(Flag::Help)
    } else {
        None
    }
}

/// A flag's token has the same effect however often it is applied.
pub proof fn lemma_apply_idempotent(options: GrepOption, token: Seq<char>)
    ensures
        options.apply(token).apply(token) == options.apply(token),
{
}

/// The order in which two tokens are applied does not matter.
pub proof fn lemma_apply_commutes(options: GrepOption, first: Seq<char>, second: Seq<char>)
    ensures
        options.apply(first).apply(second) == options.apply(second).apply(first),
{
}

/// An option is on after all tokens exactly when one of them names its flag.
pub proof fn lemma_options_of_flags(tokens: Seq<Seq<char>>, flag: Flag)
    ensures
        options_of(tokens).has(flag) <==> flag_given(tokens, flag),
    decreases tokens.len(),
{
    if tokens.len() > 0 {
        let front = tokens.drop_last();
        lemma_options_of_flags(front, flag);
        if flag_given(front, flag) {
            let i = choose|i: int| 0 <= i < front.len() && flag_of(#[trigger] front[i]) == Some(flag);
            assert(tokens[i] == front[i]);
        }
        if flag_given(tokens, flag) {
            let i = choose|i: int| 0 <= i < tokens.len() && flag_of(#[trigger] tokens[i]) == Some(flag);
            if i < front.len() {
                assert(front[i] == tokens[i]);
            }
        }
        if flag_of(tokens.last()) == Some(flag) {
            assert(tokens[tokens.len() - 1] == tokens.last());
        }
    }
}

} // verus!
