//! Character-level text operations: search, comparison, splitting and joining.

use vstd::prelude::*;

verus! {

/// `pat` occurs in `s` at position `i`.
pub open spec fn occurs_at(s: Seq<char>, pat: Seq<char>, i: int) -> bool {
    0 <= i && i + pat.len() <= s.len() && s.subrange(i, i + pat.len()) == pat
}

/// `pat` occurs somewhere in `s`.
pub open spec fn contains_text(s: Seq<char>, pat: Seq<char>) -> bool {
    exists|i: int| occurs_at(s, pat, i)
}

/// The leftmost position at or after `i` where `pat` occurs in `s`.
pub open spec fn first_match_from(s: Seq<char>, pat: Seq<char>, i: int) -> Option<int>
    decreases s.len() - i,
{
    if i < 0 || i + pat.len() > s.len() {
        None
    } else if occurs_at(s, pat, i) {
        Some(i)
    } else if i >= s.len() {
        None
    } else {
        first_match_from(s, pat, i + 1)
    }
}

/// The pieces of `s[start..]` between the non-overlapping leftmost occurrences
/// of `pat`, as `str::split` hands them out. (The range test on the match never
/// fails, see `lemma_first_match_from`; it only makes termination evident.)
pub open spec fn split_from(s: Seq<char>, pat: Seq<char>, start: int) -> Seq<Seq<char>>
    decreases s.len() - start,
{
    if pat.len() == 0 || start < 0 || start > s.len() {
        seq![]
    } else {
        match first_match_from(s, pat, start) {
            Some(k) => if start <= k && k + pat.len() <= s.len() {
                seq![s.subrange(start, k)] + split_from(s, pat, k + pat.len())
            } else {
                seq![]
            },
            None => seq![s.subrange(start, s.len() as int)],
        }
    }
}

/// `s` split on every occurrence of the non-empty `pat`.
pub open spec fn split_text(s: Seq<char>, pat: Seq<char>) -> Seq<Seq<char>> {
    split_from(s, pat, 0)
}

/// The character sequences held by a sequence of strings.
pub open spec fn views(v: Seq<String>) -> Seq<Seq<char>> {
    v.map_values(|x: String| x@)
}

/// A match found from `i` is a real occurrence at or after `i`, and none lies
/// between `i` and it; when there is none, no occurrence lies at or after `i`.
pub proof fn lemma_first_match_from(s: Seq<char>, pat: Seq<char>, i: int)
    requires
        0 <= i,
    ensures
        match first_match_from(s, pat, i) {
            Some(k) => i <= k && occurs_at(s, pat, k) && forall|j: int|
                i <= j < k ==> !occurs_at(s, pat, j),
            None => forall|j: int| i <= j ==> !occurs_at(s, pat, j),
        },
    decreases s.len() - i,
{
    if i + pat.len() > s.len() {
    } else if occurs_at(s, pat, i) {
    } else if i >= s.len() {
        assert(s.subrange(i, i + pat.len()) =~= pat);
    } else {
        lemma_first_match_from(s, pat, i + 1);
    }
}

/// `c` does not occur in `s`.
pub open spec fn lacks(s: Seq<char>, c: char) -> bool {
    forall|i: int| 0 <= i < s.len() ==> s[i] != c
}

/// A one-character pattern occurs exactly where that character stands.
pub proof fn lemma_occurs_single(s: Seq<char>, c: char, i: int)
    ensures
        occurs_at(s, seq![c], i) == (0 <= i < s.len() && s[i] == c),
{
    if 0 <= i < s.len() {
        if s[i] == c {
            assert(s.subrange(i, i + 1) =~= seq![c]);
        } else {
            assert(s.subrange(i, i + 1)[0] != seq![c][0]);
        }
    }
}

/// The first match from `i` is the occurrence `k` when none lies between.
pub proof fn lemma_first_match_is(s: Seq<char>, pat: Seq<char>, i: int, k: int)
    requires
        0 <= i <= k,
        occurs_at(s, pat, k),
        forall|j: int| i <= j < k ==> !occurs_at(s, pat, j),
    ensures
        first_match_from(s, pat, i) == Some(k),
{
    lemma_first_match_from(s, pat, i);
}

/// With no occurrence at or after `i`, there is no first match from `i`.
pub proof fn lemma_first_match_none(s: Seq<char>, pat: Seq<char>, i: int)
    requires
        0 <= i,
        forall|j: int| i <= j ==> !occurs_at(s, pat, j),
    ensures
        first_match_from(s, pat, i) is None,
{
    lemma_first_match_from(s, pat, i);
}

/// Splitting on a character: the text after its last occurrence is the last
/// piece, and the pieces before are those of the text before it.
pub proof fn lemma_split_at_last(u: Seq<char>, c: char, v: Seq<char>, start: int)
    requires
        0 <= start <= u.len(),
        lacks(v, c),
    ensures
        split_from(u + seq![c] + v, seq![c], start) == split_from(u, seq![c], start) + seq![v],
    decreases u.len() - start,
{
    let s = u + seq![c] + v;
    let p = seq![c];
    assert forall|j: int| #![trigger occurs_at(s, p, j)] 0 <= j < u.len() implies occurs_at(s, p, j)
        == occurs_at(u, p, j) by {
        lemma_occurs_single(s, c, j);
        lemma_occurs_single(u, c, j);
    }
    lemma_first_match_from(u, p, start);
    match first_match_from(u, p, start) {
        Some(k) => {
            lemma_occurs_single(u, c, k);
            assert forall|j: int| start <= j < k implies !occurs_at(s, p, j) by {
                assert(!occurs_at(u, p, j));
            }
            lemma_first_match_is(s, p, start, k);
            lemma_split_at_last(u, c, v, k + 1);
            assert(s.subrange(start, k) =~= u.subrange(start, k));
            assert(split_from(s, p, start) == seq![s.subrange(start, k)] + split_from(s, p, k + 1));
            assert(split_from(u, p, start) == seq![u.subrange(start, k)] + split_from(u, p, k + 1));
            assert(split_from(s, p, start) =~= split_from(u, p, start) + seq![v]);
        },
        None => {
            let n = u.len() as int;
            lemma_occurs_single(s, c, n);
            assert forall|j: int| start <= j < n implies !occurs_at(s, p, j) by {
                assert(!occurs_at(u, p, j));
            }
            lemma_first_match_is(s, p, start, n);
            assert forall|j: int| n + 1 <= j implies !occurs_at(s, p, j) by {
                lemma_occurs_single(s, c, j);
                if j < s.len() {
                    assert(s[j] == v[j - n - 1]);
                }
            }
            lemma_first_match_none(s, p, n + 1);
            assert(split_from(s, p, n + 1) == seq![s.subrange(n + 1, s.len() as int)]);
            assert(s.subrange(n + 1, s.len() as int) =~= v);
            assert(s.subrange(start, n) =~= u.subrange(start, n));
            assert(split_from(u, p, start) == seq![u.subrange(start, n)]);
            assert(split_from(s, p, start) =~= split_from(u, p, start) + seq![v]);
        },
    }
}

/// Text without the character splits into itself alone.
pub proof fn lemma_split_without(t: Seq<char>, c: char)
    requires
        lacks(t, c),
    ensures
        split_text(t, seq![c]) == seq![t],
{
    assert forall|j: int| 0 <= j implies !occurs_at(t, seq![c], j) by {
        lemma_occurs_single(t, c, j);
    }
    lemma_first_match_none(t, seq![c], 0);
    assert(t.subrange(0, t.len() as int) =~= t);
}

/// The characters of `s`, in order.
pub fn chars_of(s: &str) -> (v: Vec<char>)
    ensures
        v@ == s@,
{
    let n = s.unicode_len();
    let mut v: Vec<char> = Vec::new();
    for i in 0..n
        invariant
            n == s@.len(),
            v@ == s@.take(i as int),
    {
        v.push(s.get_char(i));
        assert(v@ =~= s@.take(i + 1));
    }
    assert(v@ =~= s@);
    v
}

/// Whether `pat` occurs in `s` at position `i`.
fn matches_at(s: &Vec<char>, pat: &Vec<char>, i: usize) -> (r: bool)
    requires
        i + pat.len() <= s.len(),
    ensures
        r == occurs_at(s@, pat@, i as int),
{
    let m = pat.len();
    let mut k: usize = 0;
    while k < m
        invariant
            m == pat.len(),
            i + m <= s.len(),
            k <= m,
            forall|j: int| 0 <= j < k ==> s@[i + j] == pat@[j],
        decreases m - k,
    {
        if s[i + k] != pat[k] {
            assert(s@.subrange(i as int, i + m)[k as int] != pat@[k as int]);
            return false;
        }
        k = k + 1;
    }
    assert(s@.subrange(i as int, i + m) =~= pat@);
    true
}

/// The leftmost occurrence of `pat` in `s` at or after `start`.
fn find_from(s: &Vec<char>, pat: &Vec<char>, start: usize) -> (r: Option<usize>)
    requires
        start <= s.len(),
    ensures
        match r {
            Some(k) => first_match_from(s@, pat@, start as int) == Some(k as int),
            None => first_match_from(s@, pat@, start as int) is None,
        },
{
    let n = s.len();
    let m = pat.len();
    if m == 0 {
        assert(s@.subrange(start as int, start as int) =~= pat@);
        return Some(start);
    }
    let mut j = start;
    while j < n && m <= n - j
        invariant
            n == s.len(),
            m == pat.len(),
            m > 0,
            start <= j <= n,
            first_match_from(s@, pat@, start as int) == first_match_from(s@, pat@, j as int),
        decreases n - j,
    {
        if matches_at(s, pat, j) {
            return Some(j);
        }
        j = j + 1;
    }
    None
}

/// Whether `a` and `b` hold the same characters.
pub fn text_eq(a: &str, b: &str) -> (r: bool)
    ensures
        r == (a@ == b@),
{
    let x = chars_of(a);
    let y = chars_of(b);
    if x.len() != y.len() {
        return false;
    }
    let n = x.len();
    for i in 0..n
        invariant
            n == x.len(),
            n == y.len(),
            x@ == a@,
            y@ == b@,
            forall|j: int| 0 <= j < i ==> x@[j] == y@[j],
    {
        if x[i] != y[i] {
            return false;
        }
    }
    assert(x@ =~= y@);
    true
}

/// Whether `pat` occurs somewhere in `s`.
pub fn text_contains(s: &str, pat: &str) -> (r: bool)
    ensures
        r == contains_text(s@, pat@),
{
    let x = chars_of(s);
    let p = chars_of(pat);
    let found = find_from(&x, &p, 0);
    proof {
        lemma_first_match_from(s@, pat@, 0);
    }
    found.is_some()
}

/// `s` split on every occurrence of `pat`, as `str::split` splits it.
pub fn split_on(s: &str, pat: &str) -> (pieces: Vec<String>)
    requires
        pat@.len() > 0,
    ensures
        views(pieces@) == split_text(s@, pat@),
{
    let x = chars_of(s);
    let p = chars_of(pat);
    let n = x.len();
    let m = p.len();
    let mut pieces: Vec<String> = Vec::new();
    let mut start: usize = 0;
    loop
        invariant
            x@ == s@,
            p@ == pat@,
            n == x.len(),
            m == p.len(),
            m > 0,
            start <= n,
            views(pieces@) + split_from(s@, pat@, start as int) == split_from(s@, pat@, 0),
        decreases n - start,
    {
        let found = find_from(&x, &p, start);
        proof {
            lemma_first_match_from(s@, pat@, start as int);
        }
        match found {
            Some(k) => {
                let piece = String::from_str(s.substring_char(start, k));
                proof {
                    assert(split_from(s@, pat@, start as int) == seq![s@.subrange(
                        start as int,
                        k as int,
                    )] + split_from(s@, pat@, k + m));
                    assert(views(pieces@.push(piece)) =~= views(pieces@).push(piece@));
                    assert(views(pieces@).push(piece@) + split_from(s@, pat@, k + m) =~= views(
                        pieces@,
                    ) + split_from(s@, pat@, start as int));
                }
                pieces.push(piece);
                start = k + m;
            },
            None => {
                let piece = String::from_str(s.substring_char(start, n));
                proof {
                    assert(views(pieces@.push(piece)) =~= views(pieces@).push(piece@));
                    assert(views(pieces@).push(piece@) =~= views(pieces@) + split_from(
                        s@,
                        pat@,
                        start as int,
                    ));
                }
                pieces.push(piece);
                return pieces;
            },
        }
    }
}

/// The concatenation of `a` and `b`.
pub fn join2(a: &str, b: &str) -> (r: String)
    ensures
        r@ == a@ + b@,
{
    let mut r = String::from_str(a);
    r.append(b);
    r
}

/// The concatenation of `a`, `b` and `c`.
pub fn join3(a: &str, b: &str, c: &str) -> (r: String)
    ensures
        r@ == a@ + b@ + c@,
{
    let mut r = String::from_str(a);
    r.append(b);
    r.append(c);
    r
}

} // verus!
