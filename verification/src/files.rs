//! Building the list of files to scan from the file arguments.

use vstd::prelude::*;
use vstd::string::*;
use crate::classify::{contains_wildcard, has_wildcard};
use crate::error::GrepError;
use crate::text::{lemma_texts_push, texts};

verus! {

/// One entry of the expansion of a wildcard expression.
#[derive(Clone, Debug)]
pub enum GlobEntry {
    /// A path that the expression matches. `name` is the path as text, if it
    /// can be written as text; `is_file` says whether it is a regular file.
    Path { name: Option<String>, is_file: bool },
    /// A path that matched in part and could not be read.
    Unreadable,
}

/// What expanding a wildcard expression gave.
#[derive(Clone, Debug)]
pub enum Expansion {
    /// The expression is not well-formed.
    Invalid,
    /// The entries found, in the order in which they were found.
    Entries(Vec<GlobEntry>),
}

/// A file argument together with what expanding it gave. The expansion of
/// an argument without wildcard is not looked at.
#[derive(Clone, Debug)]
pub struct FileArgument {
    /// The argument as it was given.
    pub text: String,
    /// What the wildcard expression stands for.
    pub expansion: Expansion,
}

/// The files to scan, and the arguments that could not be expanded.
#[derive(Clone, Debug)]
pub struct Resolution {
    /// The files to scan, in the order of the arguments that name them.
    pub files: Vec<String>,
    /// The wildcard arguments that are not well-formed, in their order.
    pub invalid: Vec<String>,
}

/// The name under which an entry is scanned, if it is: it must be a regular
/// file with a name that can be written as text.
pub open spec fn listed(entry: GlobEntry) -> Option<Seq<char>> {
    match entry {
        GlobEntry::Path { name: Some(name), is_file: true } => Some(name@),
        _ => None,
    }
}

/// The names of those of the first `n` entries that are scanned, in their
/// order.
pub open spec fn listed_names(entries: Seq<GlobEntry>, n: nat) -> Seq<Seq<char>>
    decreases n,
{
    if n == 0 {
        Seq::empty()
    } else {
        let before = listed_names(entries, (n - 1) as nat);
        match listed(entries[n - 1]) {
            Some(name) => before.push(name),
            None => before,
        }
    }
}

/// The files that a file argument adds to the list: itself where it holds
/// no wildcard, else the scanned entries of its expansion, and none where
/// the expression is not well-formed.
pub open spec fn added_files(arg: Seq<char>, expansion: Expansion) -> Seq<Seq<char>> {
    if !has_wildcard(arg) {
        seq![arg]
    } else {
        match expansion {
            Expansion::Invalid => Seq::empty(),
            Expansion::Entries(entries) => listed_names(entries@, entries@.len()),
        }
    }
}

/// A file argument is turned down when it holds a wildcard and is not a
/// well-formed expression.
pub open spec fn is_rejected(argument: FileArgument) -> bool {
    has_wildcard(argument.text@) && argument.expansion is Invalid
}

/// The files that the first `n` arguments stand for, one argument's files
/// after the other's.
pub open spec fn resolved_files(arguments: Seq<FileArgument>, n: nat) -> Seq<Seq<char>>
    decreases n,
{
    if n == 0 {
        Seq::empty()
    } else {
        resolved_files(arguments, (n - 1) as nat) + added_files(
            arguments[n - 1].text@,
            arguments[n - 1].expansion,
        )
    }
}

/// Those of the first `n` arguments that are turned down, in their order.
pub open spec fn rejected_arguments(arguments: Seq<FileArgument>, n: nat) -> Seq<Seq<char>>
    decreases n,
{
    if n == 0 {
        Seq::empty()
    } else {
        let before = rejected_arguments(arguments, (n - 1) as nat);
        if is_rejected(arguments[n - 1]) {
            before.push(arguments[n - 1].text@)
        } else {
            before
        }
    }
}

/// Appends to `files` the names of the entries that are regular files with
/// a name that can be written as text; directories, unreadable entries and
/// other names are dropped.
pub fn push_entries(entries: &Vec<GlobEntry>, files: &mut Vec<String>)
    ensures
        texts(final(files)@) == texts(old(files)@) + listed_names(entries@, entries@.len()),
{
    let mut i: usize = 0;
    proof {
        assert(texts(files@) + Seq::<Seq<char>>::empty() =~= texts(files@));
    }
    while i < entries.len()
        invariant
            i <= entries.len(),
            texts(files@) == texts(old(files)@) + listed_names(entries@, i as nat),
        decreases entries.len() - i,
    {
        match &entries[i] {
            GlobEntry::Path { name: Some(name), is_file: true } => {
                let owned = name.clone();
                proof {
                    lemma_texts_push(files@, owned);
                    assert((texts(old(files)@) + listed_names(entries@, i as nat)).push(owned@)
                        =~= texts(old(files)@) + listed_names(entries@, i as nat).push(owned@));
                }
                files.push(owned);
            },
            _ => {},
        }
        i += 1;
    }
}

/// Appends to `files` what the file argument `arg` stands for. An argument
/// without wildcard is appended as it is, and `expansion` is not looked at.
/// For one with a wildcard, the scanned entries of `expansion` are appended;
/// where the expression is not well-formed nothing is appended and the
/// answer is `InvalidGlobExpression`.
pub fn push_files(arg: &str, expansion: &Expansion, files: &mut Vec<String>) -> (out: Result<
    (),
    GrepError,
>)
    ensures
        texts(final(files)@) == texts(old(files)@) + added_files(arg@, *expansion),
        out is Err <==> has_wildcard(arg@) && expansion is Invalid,
        out matches Err(error) ==> error == GrepError::InvalidGlobExpression,
{
    if contains_wildcard(arg) {
        match expansion {
            Expansion::Entries(entries) => {
                push_entries(entries, files);
                Ok(())
            },
            Expansion::Invalid => {
                assert(texts(files@) + Seq::<Seq<char>>::empty() =~= texts(files@));
                Err(GrepError::InvalidGlobExpression)
            },
        }
    } else {
        let owned = arg.to_owned();
        proof {
            lemma_texts_push(files@, owned);
            assert(texts(files@).push(owned@) =~= texts(files@) + seq![arg@]);
        }
        files.push(owned);
        Ok(())
    }
}

/// Builds the list of files to scan from the file arguments, in their
/// order, and lists the arguments that were turned down.
pub fn resolve_files(arguments: &Vec<FileArgument>) -> (out: Resolution)
    ensures
        texts(out.files@) == resolved_files(arguments@, arguments@.len()),
        texts(out.invalid@) == rejected_arguments(arguments@, arguments@.len()),
{
    let mut files: Vec<String> = Vec::new();
    let mut invalid: Vec<String> = Vec::new();
    let mut i: usize = 0;
    proof {
        assert(texts(files@) =~= Seq::<Seq<char>>::empty());
        assert(texts(invalid@) =~= Seq::<Seq<char>>::empty());
    }
    while i < arguments.len()
        invariant
            i <= arguments.len(),
            texts(files@) == resolved_files(arguments@, i as nat),
            texts(invalid@) == rejected_arguments(arguments@, i as nat),
        decreases arguments.len() - i,
    {
        let argument = &arguments[i];
        match push_files(argument.text.as_str(), &argument.expansion, &mut files) {
            Ok(()) => {},
            Err(_) => {
                let owned = argument.text.clone();
                proof {
                    lemma_texts_push(invalid@, owned);
                }
                invalid.push(owned);
            },
        }
        i += 1;
    }
    Resolution { files, invalid }
}

} // verus!
