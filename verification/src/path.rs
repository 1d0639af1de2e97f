//! Paths as '/'-separated text: joining a directory and a name, taking the
//! final component, and telling whether a path stands directly in a directory.
//!
//! The final component follows the component rules of `std::path::Path` on
//! Unix: repeated and trailing separators and "." components are passed over,
//! and ".." names no file. The parent and "directly in" are meant for the
//! paths this library builds by joining a directory and a plain name, which
//! hold no such components; on them they agree with `std::path::Path`.

use vstd::prelude::*;
use crate::text::{
    chars_of, join3, lacks, lemma_first_match_from, lemma_split_at_last, split_from, split_on,
    split_text, text_eq, views, first_match_from,
};

verus! {

/// `dir` and `name` joined by one '/'.
pub open spec fn joined(dir: Seq<char>, name: Seq<char>) -> Seq<char> {
    dir + seq!['/'] + name
}

/// A component that names no file: empty, "." or "..".
pub open spec fn is_dot_or_empty(name: Seq<char>) -> bool {
    name.len() == 0 || name == seq!['.'] || name == seq!['.', '.']
}

/// Among the first `n` pieces of a path, the last that is neither empty nor
/// "." (the pieces that `std::path::Path` passes over).
pub open spec fn last_component(pieces: Seq<Seq<char>>, n: int) -> Option<Seq<char>>
    decreases n,
{
    if n <= 0 || n > pieces.len() {
        None
    } else if pieces[n - 1].len() == 0 || pieces[n - 1] == seq!['.'] {
        last_component(pieces, n - 1)
    } else {
        Some(pieces[n - 1])
    }
}

/// The final component of `path`, when it is a name: the last '/'-separated
/// piece that is neither empty nor "."; none when there is no such piece or
/// when it is "..".
pub open spec fn file_name_of(path: Seq<char>) -> Option<Seq<char>> {
    let pieces = split_text(path, seq!['/']);
    match last_component(pieces, pieces.len() as int) {
        Some(c) => if c == seq!['.', '.'] {
            None
        } else {
            Some(c)
        },
        None => None,
    }
}

/// `path` is `dir`, a '/', and a name with no further '/'.
pub open spec fn directly_in(path: Seq<char>, dir: Seq<char>) -> bool {
    &&& path.len() > dir.len() + 1
    &&& path.take(dir.len() as int) == dir
    &&& path[dir.len() as int] == '/'
    &&& lacks(path.skip(dir.len() as int + 1), '/')
}

/// The position of the last '/' among the first `n` characters of `s`.
pub open spec fn last_slash_before(s: Seq<char>, n: int) -> Option<int>
    decreases n,
{
    if n <= 0 {
        None
    } else if s[n - 1] == '/' {
        Some(n - 1)
    } else {
        last_slash_before(s, n - 1)
    }
}

/// The directory that `path` stands in: the text before its last '/'; empty
/// when it has none.
pub open spec fn parent_of(path: Seq<char>) -> Seq<char> {
    match last_slash_before(path, path.len() as int) {
        Some(k) => path.take(k),
        None => seq![],
    }
}

/// The last '/' among the first `n` characters of `dir/name` is the joining
/// one, when `name` holds no '/'.
proof fn lemma_last_slash_of_join(dir: Seq<char>, name: Seq<char>, n: int)
    requires
        lacks(name, '/'),
        dir.len() < n <= joined(dir, name).len(),
    ensures
        last_slash_before(joined(dir, name), n) == Some(dir.len() as int),
    decreases n,
{
    let s = joined(dir, name);
    if n - 1 > dir.len() {
        assert(s[n - 1] == name[n - 1 - dir.len() - 1]);
        lemma_last_slash_of_join(dir, name, n - 1);
    }
}

/// The directory that `dir/name` stands in is `dir`, when `name` holds no '/'.
pub proof fn lemma_join_then_parent(dir: Seq<char>, name: Seq<char>)
    requires
        lacks(name, '/'),
    ensures
        parent_of(joined(dir, name)) == dir,
{
    lemma_last_slash_of_join(dir, name, joined(dir, name).len() as int);
    assert(joined(dir, name).take(dir.len() as int) =~= dir);
}

/// Splitting never yields an empty list of pieces.
pub proof fn lemma_split_nonempty(s: Seq<char>, pat: Seq<char>, start: int)
    requires
        pat.len() > 0,
        0 <= start <= s.len(),
    ensures
        split_from(s, pat, start).len() > 0,
    decreases s.len() - start,
{
    lemma_first_match_from(s, pat, start);
    match first_match_from(s, pat, start) {
        Some(k) => {
            lemma_split_nonempty(s, pat, k + pat.len());
        },
        None => {},
    }
}

/// The final component of `dir/name` is `name`, and `dir/name` stands directly
/// in `dir`, for every name with no '/' that is not empty, "." or "..".
pub proof fn lemma_join_then_file_name(dir: Seq<char>, name: Seq<char>)
    requires
        lacks(name, '/'),
        !is_dot_or_empty(name),
    ensures
        file_name_of(joined(dir, name)) == Some(name),
        directly_in(joined(dir, name), dir),
{
    lemma_split_at_last(dir, '/', name, 0);
    let p = joined(dir, name);
    assert(p.take(dir.len() as int) =~= dir);
    assert(p.skip(dir.len() as int + 1) =~= name);
}

/// `dir` and `name` joined by one '/'.
pub fn join_path(dir: &str, name: &str) -> (r: String)
    ensures
        r@ == joined(dir@, name@),
{
    let r = join3(dir, "/", name);
    proof {
        reveal_strlit("/");
    }
    r
}

/// The final component of `path`, when it is a name.
pub fn file_name(path: &str) -> (r: Option<String>)
    ensures
        match r {
            Some(n) => file_name_of(path@) == Some(n@),
            None => file_name_of(path@) is None,
        },
{
    proof {
        reveal_strlit("/");
        reveal_strlit(".");
        reveal_strlit("..");
    }
    assert("/"@ =~= seq!['/']);
    assert("."@ =~= seq!['.']);
    assert(".."@ =~= seq!['.', '.']);
    let pieces = split_on(path, "/");
    let ghost ps = views(pieces@);
    let mut n = pieces.len();
    while n > 0
        invariant
            ps == views(pieces@),
            ps == split_text(path@, seq!['/']),
            "."@ == seq!['.'],
            ".."@ == seq!['.', '.'],
            n <= pieces.len(),
            last_component(ps, n as int) == last_component(ps, ps.len() as int),
        decreases n,
    {
        let piece = pieces[n - 1].as_str();
        assert(piece@ == ps[n - 1]);
        if piece.unicode_len() == 0 || text_eq(piece, ".") {
            n = n - 1;
        } else if text_eq(piece, "..") {
            return None;
        } else {
            return Some(pieces[n - 1].clone());
        }
    }
    None
}

/// Whether `path` is `dir`, a '/', and a name with no further '/'.
pub fn is_directly_in(path: &str, dir: &str) -> (r: bool)
    ensures
        r == directly_in(path@, dir@),
{
    let p = chars_of(path);
    let d = chars_of(dir);
    let n = p.len();
    let m = d.len();
    if n <= m || n - m < 2 {
        return false;
    }
    for i in 0..m
        invariant
            p@ == path@,
            d@ == dir@,
            n == p.len(),
            m == d.len(),
            m < n,
            forall|j: int| 0 <= j < i ==> p@[j] == d@[j],
    {
        if p[i] != d[i] {
            assert(p@.take(m as int)[i as int] != d@[i as int]);
            return false;
        }
    }
    assert(p@.take(m as int) =~= d@);
    if p[m] != '/' {
        return false;
    }
    let mut k = m + 1;
    while k < n
        invariant
            p@ == path@,
            d@ == dir@,
            n == p.len(),
            m == d.len(),
            m + 1 <= k <= n,
            forall|j: int| m + 1 <= j < k ==> p@[j] != '/',
        decreases n - k,
    {
        if p[k] == '/' {
            assert(p@.skip(m + 1)[k - m - 1] == '/');
            return false;
        }
        k = k + 1;
    }
    let ghost rest = p@.skip(m + 1);
    assert forall|j: int| 0 <= j < rest.len() implies #[trigger] rest[j] != '/' by {
        assert(rest[j] == p@[j + m + 1]);
    }
    true
}

/// The directory that `path` stands in.
pub fn parent_dir(path: &str) -> (r: String)
    ensures
        r@ == parent_of(path@),
{
    let p = chars_of(path);
    let mut n = p.len();
    while n > 0
        invariant
            p@ == path@,
            n <= p.len(),
            last_slash_before(path@, n as int) == last_slash_before(path@, path@.len() as int),
        decreases n,
    {
        if p[n - 1] == '/' {
            return String::from_str(path.substring_char(0, n - 1));
        }
        n = n - 1;
    }
    String::new()
}

} // verus!
