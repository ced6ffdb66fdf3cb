//! Character-sequence primitives: token search, splitting and replacement.

use vstd::prelude::*;

verus! {

/// `tok` occurs in `s` starting at index `i`.
pub open spec fn occurs_at(s: Seq<char>, tok: Seq<char>, i: int) -> bool {
    0 <= i && i + tok.len() <= s.len() && s.subrange(i, i + tok.len()) == tok
}

/// The pieces of `s[begin..]` cut at each leftmost, non-overlapping occurrence
/// of `tok` found at or after index `i` (the scan position).
pub open spec fn split_from(s: Seq<char>, tok: Seq<char>, begin: int, i: int) -> Seq<Seq<char>>
    decreases s.len() - i,
{
    if tok.len() == 0 || i < 0 || i + tok.len() > s.len() {
        seq![s.subrange(begin, s.len() as int)]
    } else if occurs_at(s, tok, i) {
        seq![s.subrange(begin, i)] + split_from(s, tok, i + tok.len(), i + tok.len())
    } else {
        split_from(s, tok, begin, i + 1)
    }
}

/// The pieces of `s` between the leftmost non-overlapping occurrences of
/// `tok`, as `str::split` yields them: always at least one piece.
pub open spec fn split_on(s: Seq<char>, tok: Seq<char>) -> Seq<Seq<char>> {
    split_from(s, tok, 0, 0)
}

/// The smallest index at or after `i` where `tok` occurs in `s`, or -1.
pub open spec fn find_from(s: Seq<char>, tok: Seq<char>, i: int) -> int
    decreases s.len() + 1 - i,
{
    if i < 0 || i + tok.len() > s.len() {
        -1
    } else if occurs_at(s, tok, i) {
        i
    } else {
        find_from(s, tok, i + 1)
    }
}

/// The largest index at or below `i` where `tok` occurs in `s`, or -1.
pub open spec fn find_last_upto(s: Seq<char>, tok: Seq<char>, i: int) -> int
    decreases i + 1,
{
    if i < 0 {
        -1
    } else if occurs_at(s, tok, i) {
        i
    } else {
        find_last_upto(s, tok, i - 1)
    }
}

/// The index of the last occurrence of `tok` in `s`, or -1.
pub open spec fn rfind(s: Seq<char>, tok: Seq<char>) -> int {
    find_last_upto(s, tok, s.len() - tok.len())
}

/// Every leftmost non-overlapping occurrence of `from` in `s` replaced by
/// `to`, as `str::replace` does.
pub open spec fn replace_from(s: Seq<char>, from: Seq<char>, to: Seq<char>, i: int) -> Seq<char>
    decreases s.len() - i,
{
    if from.len() == 0 || i < 0 || i >= s.len() {
        s.subrange(i, s.len() as int)
    } else if occurs_at(s, from, i) {
        to + replace_from(s, from, to, i + from.len())
    } else {
        seq![s[i]] + replace_from(s, from, to, i + 1)
    }
}

pub open spec fn replace_all(s: Seq<char>, from: Seq<char>, to: Seq<char>) -> Seq<char> {
    replace_from(s, from, to, 0)
}

/// The characters of `s`.
pub fn chars_of(s: &str) -> (r: Vec<char>)
    ensures
        r@ == s@,
{
    broadcast use vstd::string::axiom_spec_iter;
    let mut r: Vec<char> = Vec::new();
    for c in it: s.chars()
        invariant
            r@ == it.seq().take(it.index() as int),
    {
        r.push(c);
    }
    r
}

/// Relies on `String::push`: appends one character.
#[verifier::external_body]
fn push_char(s: &mut String, c: char)
    ensures
        final(s)@ == old(s)@.push(c),
{
    s.push(c)
}

/// A string holding the characters of `v`.
pub fn string_of(v: &Vec<char>) -> (r: String)
    ensures
        r@ == v@,
{
    let mut r = String::new();
    let mut k: usize = 0;
    while k < v.len()
        invariant
            k <= v.len(),
            r@ == v@.subrange(0, k as int),
        decreases v.len() - k,
    {
        push_char(&mut r, v[k]);
        k = k + 1;
        assert(r@ =~= v@.subrange(0, k as int));
    }
    assert(v@.subrange(0, v.len() as int) =~= v@);
    r
}

/// The contents of a sequence of character vectors.
pub open spec fn pieces_view(v: Seq<Vec<char>>) -> Seq<Seq<char>> {
    v.map_values(|p: Vec<char>| p@)
}

/// Whether `tok` occurs in `v` at index `i`.
pub fn matches_at(v: &Vec<char>, tok: &Vec<char>, i: usize) -> (r: bool)
    ensures
        r == occurs_at(v@, tok@, i as int),
{
    if tok.len() > v.len() || i > v.len() - tok.len() {
        return false;
    }
    let mut k: usize = 0;
    while k < tok.len()
        invariant
            k <= tok.len(),
            i + tok.len() <= v.len(),
            forall|j: int| 0 <= j < k ==> v@[i + j] == tok@[j],
        decreases tok.len() - k,
    {
        if v[i + k] != tok[k] {
            assert(v@.subrange(i as int, i + tok.len())[k as int] != tok@[k as int]);
            return false;
        }
        k = k + 1;
    }
    assert(v@.subrange(i as int, i + tok.len()) =~= tok@);
    true
}

/// A copy of `v[a..b]`.
pub fn copy_range(v: &Vec<char>, a: usize, b: usize) -> (r: Vec<char>)
    requires
        a <= b <= v.len(),
    ensures
        r@ == v@.subrange(a as int, b as int),
{
    let mut r: Vec<char> = Vec::new();
    let mut k: usize = a;
    while k < b
        invariant
            a <= k <= b <= v.len(),
            r@ == v@.subrange(a as int, k as int),
        decreases b - k,
    {
        r.push(v[k]);
        k = k + 1;
        assert(r@ =~= v@.subrange(a as int, k as int));
    }
    r
}

/// The pieces of `v` between the leftmost non-overlapping occurrences of `tok`.
pub fn split(v: &Vec<char>, tok: &Vec<char>) -> (r: Vec<Vec<char>>)
    requires
        tok.len() > 0,
    ensures
        pieces_view(r@) == split_on(v@, tok@),
        r.len() >= 1,
{
    let mut pieces: Vec<Vec<char>> = Vec::new();
    let mut begin: usize = 0;
    let mut i: usize = 0;
    while i < v.len() && tok.len() <= v.len() - i
        invariant
            begin <= i <= v.len(),
            tok.len() > 0,
            pieces_view(pieces@) + split_from(v@, tok@, begin as int, i as int) == split_on(v@, tok@),
        decreases v.len() - i,
    {
        if matches_at(v, tok, i) {
            let piece = copy_range(v, begin, i);
            let ghost before = pieces_view(pieces@);
            pieces.push(piece);
            assert(pieces_view(pieces@) =~= before.push(piece@));
            i = i + tok.len();
            begin = i;
        } else {
            i = i + 1;
        }
    }
    let last = copy_range(v, begin, v.len());
    let ghost before = pieces_view(pieces@);
    pieces.push(last);
    assert(pieces_view(pieces@) =~= before.push(last@));
    pieces
}

/// The first index at or after `from` where `tok` occurs in `v`.
pub fn find(v: &Vec<char>, tok: &Vec<char>, from: usize) -> (r: Option<usize>)
    requires
        from <= v.len(),
        tok.len() > 0,
    ensures
        match r {
            Some(j) => j as int == find_from(v@, tok@, from as int) && occurs_at(v@, tok@, j as int),
            None => find_from(v@, tok@, from as int) == -1,
        },
{
    let mut i: usize = from;
    while i < v.len() && tok.len() <= v.len() - i
        invariant
            from <= i <= v.len(),
            tok.len() > 0,
            find_from(v@, tok@, i as int) == find_from(v@, tok@, from as int),
        decreases v.len() + 1 - i,
    {
        if matches_at(v, tok, i) {
            return Some(i);
        }
        i = i + 1;
    }
    None
}

/// The last index where `tok` occurs in `v`.
pub fn rfind_in(v: &Vec<char>, tok: &Vec<char>) -> (r: Option<usize>)
    ensures
        match r {
            Some(j) => j as int == rfind(v@, tok@) && occurs_at(v@, tok@, j as int),
            None => rfind(v@, tok@) == -1,
        },
{
    if tok.len() > v.len() {
        return None;
    }
    let mut i: usize = v.len() - tok.len();
    loop
        invariant
            i + tok.len() <= v.len(),
            find_last_upto(v@, tok@, i as int) == rfind(v@, tok@),
        decreases i,
    {
        if matches_at(v, tok, i) {
            return Some(i);
        }
        if i == 0 {
            assert(find_last_upto(v@, tok@, -1) == -1);
            return None;
        }
        i = i - 1;
    }
}

/// `v` with each leftmost non-overlapping occurrence of `from` replaced by `to`.
pub fn replace(v: &Vec<char>, from: &Vec<char>, to: &Vec<char>) -> (r: Vec<char>)
    requires
        from.len() > 0,
    ensures
        r@ == replace_all(v@, from@, to@),
{
    let mut r: Vec<char> = Vec::new();
    let mut i: usize = 0;
    while i < v.len()
        invariant
            i <= v.len(),
            from.len() > 0,
            r@ + replace_from(v@, from@, to@, i as int) == replace_all(v@, from@, to@),
        decreases v.len() - i,
    {
        if matches_at(v, from, i) {
            let ghost before = r@;
            let mut k: usize = 0;
            while k < to.len()
                invariant
                    k <= to.len(),
                    r@ == before + to@.subrange(0, k as int),
                decreases to.len() - k,
            {
                r.push(to[k]);
                k = k + 1;
                assert(r@ =~= before + to@.subrange(0, k as int));
            }
            assert(to@.subrange(0, to@.len() as int) =~= to@);
            assert(r@ + replace_from(v@, from@, to@, i + from.len()) =~= before + replace_from(v@, from@, to@, i as int));
            i = i + from.len();
        } else {
            let ghost before = r@;
            r.push(v[i]);
            assert(r@ + replace_from(v@, from@, to@, i + 1) =~= before + replace_from(v@, from@, to@, i as int));
            i = i + 1;
        }
    }
    assert(replace_from(v@, from@, to@, i as int) =~= Seq::<char>::empty());
    assert(r@ =~= r@ + Seq::<char>::empty());
    r
}

} // verus!
