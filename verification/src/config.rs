//! The configuration that records, for each installed application, the names
//! it placed in the install directory: one name per line.

use vstd::prelude::*;
use crate::lowercase::{lowercase_of, to_lowercase};
use crate::text::{join2, lacks, lemma_split_at_last, lemma_split_without, split_on, split_text, views};

verus! {

/// The configuration text for `names`: each name followed by a line break.
pub open spec fn config_text(names: Seq<Seq<char>>) -> Seq<char>
    decreases names.len(),
{
    if names.len() == 0 {
        seq![]
    } else {
        config_text(names.drop_last()) + names.last() + seq!['\n']
    }
}

/// The pieces that are not empty, in order.
pub open spec fn non_empty_pieces(pieces: Seq<Seq<char>>) -> Seq<Seq<char>>
    decreases pieces.len(),
{
    if pieces.len() == 0 {
        seq![]
    } else if pieces.last().len() > 0 {
        non_empty_pieces(pieces.drop_last()).push(pieces.last())
    } else {
        non_empty_pieces(pieces.drop_last())
    }
}

/// The names that a configuration text lists: its non-empty lines.
pub open spec fn config_entries_of(contents: Seq<char>) -> Seq<Seq<char>> {
    non_empty_pieces(split_text(contents, seq!['\n']))
}

/// A name that can stand on a line of its own: not empty, no line break.
pub open spec fn is_line_name(name: Seq<char>) -> bool {
    name.len() > 0 && lacks(name, '\n')
}

/// Where the configuration of `app` is kept: the configuration directory and
/// `app` in lowercase. Installing writes it there and removing reads it there,
/// whatever the case in which the name is given.
pub open spec fn config_path_of(config_dir: Seq<char>, app: Seq<char>) -> Seq<char> {
    config_dir + lowercase_of(app)
}

/// Splitting `config_text(names) + tail` on line breaks gives the names, then
/// the tail, when no name and not the tail holds a line break.
proof fn lemma_split_config_text(names: Seq<Seq<char>>, tail: Seq<char>)
    requires
        forall|i: int| 0 <= i < names.len() ==> lacks(#[trigger] names[i], '\n'),
        lacks(tail, '\n'),
    ensures
        split_text(config_text(names) + tail, seq!['\n']) == names.push(tail),
    decreases names.len(),
{
    if names.len() == 0 {
        assert(config_text(names) + tail =~= tail);
        lemma_split_without(tail, '\n');
        assert(names.push(tail) =~= seq![tail]);
    } else {
        let rest = names.drop_last();
        let last = names.last();
        assert(lacks(last, '\n'));
        lemma_split_config_text(rest, last);
        let u = config_text(rest) + last;
        lemma_split_at_last(u, '\n', tail, 0);
        assert(config_text(names) + tail =~= u + seq!['\n'] + tail);
        assert(rest.push(last) =~= names);
    }
}

/// Filtering out empty pieces keeps a list of non-empty pieces as it is.
proof fn lemma_non_empty_all(names: Seq<Seq<char>>)
    requires
        forall|i: int| 0 <= i < names.len() ==> (#[trigger] names[i]).len() > 0,
    ensures
        non_empty_pieces(names) == names,
    decreases names.len(),
{
    if names.len() > 0 {
        lemma_non_empty_all(names.drop_last());
        assert(names.drop_last().push(names.last()) =~= names);
    }
}

/// What is written for a list of names reads back as that same list: the
/// entries of `config_text(names)` are `names`, for names that are not empty
/// and hold no line break.
pub proof fn lemma_config_roundtrip(names: Seq<Seq<char>>)
    requires
        forall|i: int| 0 <= i < names.len() ==> is_line_name(#[trigger] names[i]),
    ensures
        config_entries_of(config_text(names)) == names,
{
    assert forall|i: int| 0 <= i < names.len() implies lacks(#[trigger] names[i], '\n') by {
        assert(is_line_name(names[i]));
    }
    lemma_split_config_text(names, seq![]);
    assert(config_text(names) + seq![] =~= config_text(names));
    let pieces = names.push(seq![]);
    assert(pieces.drop_last() =~= names);
    assert forall|i: int| 0 <= i < names.len() implies (#[trigger] names[i]).len() > 0 by {
        assert(is_line_name(names[i]));
    }
    lemma_non_empty_all(names);
}

/// The configuration text for `names`.
pub fn render_config(names: &Vec<String>) -> (r: String)
    ensures
        r@ == config_text(views(names@)),
{
    let mut r = String::new();
    proof {
        reveal_strlit("\n");
    }
    for i in 0..names.len()
        invariant
            r@ == config_text(views(names@).take(i as int)),
    {
        let ghost before = views(names@).take(i as int);
        r.append(names[i].as_str());
        r.append("\n");
        proof {
            let after = views(names@).take(i + 1);
            assert(after.drop_last() =~= before);
            assert(after.last() == names@[i as int]@);
            reveal_strlit("\n");
            assert("\n"@ =~= seq!['\n']);
        }
    }
    assert(views(names@).take(names.len() as int) =~= views(names@));
    r
}

/// The names that the configuration text `contents` lists, in order.
pub fn config_entries(contents: &str) -> (r: Vec<String>)
    ensures
        views(r@) == config_entries_of(contents@),
{
    proof {
        reveal_strlit("\n");
    }
    assert("\n"@ =~= seq!['\n']);
    let pieces = split_on(contents, "\n");
    let mut r: Vec<String> = Vec::new();
    for i in 0..pieces.len()
        invariant
            views(pieces@) == split_text(contents@, seq!['\n']),
            views(r@) == non_empty_pieces(views(pieces@).take(i as int)),
    {
        let ghost before = views(pieces@).take(i as int);
        proof {
            let after = views(pieces@).take(i + 1);
            assert(after.drop_last() =~= before);
            assert(after.last() == pieces@[i as int]@);
        }
        if pieces[i].as_str().unicode_len() > 0 {
            r.push(pieces[i].clone());
            assert(views(r@) =~= non_empty_pieces(before).push(pieces@[i as int]@));
        }
    }
    assert(views(pieces@).take(pieces.len() as int) =~= views(pieces@));
    r
}

/// Where the configuration of `app` is kept.
pub fn config_file(config_dir: &str, app: &str) -> (r: String)
    ensures
        r@ == config_path_of(config_dir@, app@),
{
    let lower = to_lowercase(app);
    join2(config_dir, lower.as_str())
}

/// The path in the install directory that an installed name occupies: the
/// install directory (which ends with '/') followed by the name.
pub fn installed_path(install_dir: &str, name: &str) -> (r: String)
    ensures
        r@ == install_dir@ + name@,
{
    join2(install_dir, name)
}

/// What removing one recorded name does, from what is found at its path.
#[derive(PartialEq, Eq, Structural)]
pub enum RemovalStep {
    /// Nothing is there: report it and go on.
    Skip,
    /// A file is there: remove it.
    RemoveFile,
    /// A directory is there: remove it with all it holds.
    RemoveDirectory,
    /// Something else is there: leave it.
    Keep,
}

/// What removing one recorded name does, from whether its path exists and is
/// a file or a directory.
pub fn removal_step(exists: bool, is_file: bool, is_dir: bool) -> (r: RemovalStep)
    ensures
        !exists ==> r == RemovalStep::Skip,
        exists && is_file ==> r == RemovalStep::RemoveFile,
        exists && !is_file && is_dir ==> r == RemovalStep::RemoveDirectory,
        exists && !is_file && !is_dir ==> r == RemovalStep::Keep,
{
    if !exists {
        RemovalStep::Skip
    } else if is_file {
        RemovalStep::RemoveFile
    } else if is_dir {
        RemovalStep::RemoveDirectory
    } else {
        RemovalStep::Keep
    }
}

} // verus!
