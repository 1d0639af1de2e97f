//! Application names: a GitHub account and a repository, written
//! `<account>/<repository>`.

use vstd::prelude::*;
use crate::lowercase::{lowercase_of, to_lowercase};
use crate::path::lemma_split_nonempty;
use crate::text::{
    first_match_from, join3, lacks, lemma_first_match_from, lemma_occurs_single,
    lemma_split_at_last, lemma_split_without, split_from, split_on, split_text, views,
};

verus! {

/// An application to install: the account that owns the repository and the
/// repository's name.
pub struct RepoName {
    pub owner: String,
    pub name: String,
}

/// The '/'-separated pieces of an application name.
pub open spec fn app_pieces(app: Seq<char>) -> Seq<Seq<char>> {
    split_text(app, seq!['/'])
}

/// An application name is valid when it has exactly two '/'-separated pieces.
pub open spec fn is_valid_app(app: Seq<char>) -> bool {
    app_pieces(app).len() == 2
}

/// The URL that describes the latest release of `app`.
pub open spec fn release_url_of(app: Seq<char>) -> Seq<char> {
    "https://api.github.com/repos/"@ + lowercase_of(app) + "/releases/latest"@
}

/// The account and repository that `app` names, when it is valid.
pub fn parse_repo_name(app: &str) -> (r: Option<RepoName>)
    ensures
        r is Some <==> is_valid_app(app@),
        r matches Some(repo) ==> repo.owner@ == app_pieces(app@)[0] && repo.name@ == app_pieces(
            app@,
        )[1],
{
    proof {
        reveal_strlit("/");
    }
    assert("/"@ =~= seq!['/']);
    let pieces = split_on(app, "/");
    if pieces.len() != 2 {
        return None;
    }
    assert(views(pieces@)[0] == pieces@[0]@);
    assert(views(pieces@)[1] == pieces@[1]@);
    Some(RepoName { owner: pieces[0].clone(), name: pieces[1].clone() })
}

/// The second '/'-separated piece of `app`, the name shown while removing it.
pub fn display_name(app: &str) -> (r: String)
    requires
        app_pieces(app@).len() >= 2,
    ensures
        r@ == app_pieces(app@)[1],
{
    proof {
        reveal_strlit("/");
    }
    assert("/"@ =~= seq!['/']);
    let pieces = split_on(app, "/");
    assert(views(pieces@)[1] == pieces@[1]@);
    pieces[1].clone()
}

/// The URL that describes the latest release of `app`.
pub fn latest_release_url(app: &str) -> (r: String)
    ensures
        r@ == release_url_of(app@),
{
    let lower = to_lowercase(app);
    join3("https://api.github.com/repos/", lower.as_str(), "/releases/latest")
}

/// Text that splits into two pieces on '/' is the first piece, '/', and the
/// second.
proof fn lemma_two_pieces(s: Seq<char>)
    requires
        app_pieces(s).len() == 2,
    ensures
        s == app_pieces(s)[0] + seq!['/'] + app_pieces(s)[1],
{
    let p = seq!['/'];
    lemma_first_match_from(s, p, 0);
    match first_match_from(s, p, 0) {
        Some(k) => {
            lemma_occurs_single(s, '/', k);
            assert(split_from(s, p, 0) == seq![s.subrange(0, k)] + split_from(s, p, k + 1));
            lemma_first_match_from(s, p, k + 1);
            match first_match_from(s, p, k + 1) {
                Some(k2) => {
                    lemma_occurs_single(s, '/', k2);
                    lemma_split_nonempty(s, p, k2 + 1);
                    assert(split_from(s, p, k + 1) == seq![s.subrange(k + 1, k2)] + split_from(
                        s,
                        p,
                        k2 + 1,
                    ));
                    assert(false);
                },
                None => {
                    assert(split_from(s, p, k + 1) == seq![s.subrange(k + 1, s.len() as int)]);
                    assert(app_pieces(s)[0] == s.subrange(0, k));
                    assert(app_pieces(s)[1] == s.subrange(k + 1, s.len() as int));
                    assert(s =~= s.subrange(0, k) + p + s.subrange(k + 1, s.len() as int));
                },
            }
        },
        None => {
            assert(split_from(s, p, 0) == seq![s.subrange(0, s.len() as int)]);
        },
    }
}

/// Joining the pieces of a valid application name gives the name back.
pub proof fn lemma_pieces_rejoin(app: Seq<char>)
    requires
        is_valid_app(app),
    ensures
        app_pieces(app)[0] + seq!['/'] + app_pieces(app)[1] == app,
{
    lemma_two_pieces(app);
}

/// An account and a repository name, neither holding '/', joined by '/' form a
/// valid application name whose pieces are the two of them.
pub proof fn lemma_join_then_pieces(owner: Seq<char>, name: Seq<char>)
    requires
        lacks(owner, '/'),
        lacks(name, '/'),
    ensures
        is_valid_app(owner + seq!['/'] + name),
        app_pieces(owner + seq!['/'] + name) == seq![owner, name],
{
    lemma_split_at_last(owner, '/', name, 0);
    lemma_split_without(owner, '/');
    assert(split_from(owner, seq!['/'], 0) == seq![owner]);
    assert(seq![owner] + seq![name] =~= seq![owner, name]);
}

} // verus!
