use vstd::prelude::*;
use crate::strings::{spec_is_whitespace, append_chars, copy_chars};

verus! {

/// The character sequences held by a vector of words.
pub open spec fn views(ws: Seq<Vec<char>>) -> Seq<Seq<char>> {
    ws.map_values(|w: Vec<char>| w@)
}

/// Splitting state after reading `s` from the left: the words already closed
/// by a whitespace character, and the word being read.
pub open spec fn split_state(s: Seq<char>) -> (Seq<Seq<char>>, Seq<char>)
    decreases s.len(),
{
    if s.len() == 0 {
        (Seq::empty(), Seq::empty())
    } else {
        let (done, cur) = split_state(s.drop_last());
        let c = s.last();
        if spec_is_whitespace(c) {
            if cur.len() > 0 {
                (done.push(cur), Seq::empty())
            } else {
                (done, Seq::empty())
            }
        } else {
            (done, cur.push(c))
        }
    }
}

/// The words of `s`: its maximal runs of non-whitespace characters, in order
/// (what `str::split_whitespace` yields).
pub open spec fn words_of(s: Seq<char>) -> Seq<Seq<char>> {
    let (done, cur) = split_state(s);
    if cur.len() > 0 {
        done.push(cur)
    } else {
        done
    }
}

/// The words joined with one space between two neighbours.
pub open spec fn join_words(ws: Seq<Seq<char>>) -> Seq<char>
    decreases ws.len(),
{
    if ws.len() == 0 {
        Seq::empty()
    } else if ws.len() == 1 {
        ws[0]
    } else {
        join_words(ws.drop_last()) + seq![' '] + ws.last()
    }
}

/// Whether a word ends with a full stop.
pub open spec fn ends_with_dot(w: Seq<char>) -> bool {
    w.len() > 0 && w.last() == '.'
}

/// The first `n` elements of `s`, or all of them when it is shorter.
pub open spec fn take_at_most<A>(s: Seq<A>, n: int) -> Seq<A> {
    if n < s.len() {
        s.take(n)
    } else {
        s
    }
}

/// The elements of `s` after the first `n`, or none when it is shorter.
pub open spec fn skip_at_most<A>(s: Seq<A>, n: int) -> Seq<A> {
    if n < s.len() {
        s.skip(n)
    } else {
        Seq::empty()
    }
}

pub proof fn lemma_views_push(ws: Seq<Vec<char>>, w: Vec<char>)
    ensures
        views(ws.push(w)) == views(ws).push(w@),
{
    assert(views(ws.push(w)) =~= views(ws).push(w@));
}

/// The words of a character sequence.
pub fn split_words(s: &Vec<char>) -> (r: Vec<Vec<char>>)
    ensures
        views(r@) == words_of(s@),
{
    let mut done: Vec<Vec<char>> = Vec::new();
    let mut cur: Vec<char> = Vec::new();
    let mut i: usize = 0;
    while i < s.len()
        invariant
            i <= s.len(),
            (views(done@), cur@) == split_state(s@.take(i as int)),
        decreases s.len() - i,
    {
        let c = s[i];
        assert(s@.take(i + 1).drop_last() == s@.take(i as int));
        assert(s@.take(i + 1).last() == c);
        if c.is_whitespace() {
            if cur.len() > 0 {
                proof {
                    lemma_views_push(done@, cur);
                }
                done.push(cur);
                cur = Vec::new();
            }
        } else {
            cur.push(c);
        }
        i = i + 1;
    }
    assert(s@.take(s.len() as int) == s@);
    if cur.len() > 0 {
        proof {
            lemma_views_push(done@, cur);
        }
        done.push(cur);
    }
    done
}

/// The number of words of a character sequence.
pub fn count_words_chars(s: &Vec<char>) -> (r: usize)
    ensures
        r == words_of(s@).len(),
{
    let words = split_words(s);
    words.len()
}

/// The words joined with single spaces.
pub fn join_with_spaces(ws: &Vec<Vec<char>>) -> (r: Vec<char>)
    ensures
        r@ == join_words(views(ws@)),
{
    let mut r: Vec<char> = Vec::new();
    let ghost vs = views(ws@);
    for i in 0..ws.len()
        invariant
            vs == views(ws@),
            r@ == join_words(vs.take(i as int)),
    {
        assert(vs.take(i + 1).drop_last() == vs.take(i as int));
        assert(vs.take(i + 1).last() == ws@[i as int]@);
        if i > 0 {
            r.push(' ');
        } else {
            assert(vs.take(1) =~= seq![ws@[0]@]);
        }
        append_chars(&mut r, &ws[i]);
    }
    assert(vs.take(ws.len() as int) == vs);
    r
}

/// Appends copies of `ws[from..to]` at the end of `out`.
pub fn push_word_range(out: &mut Vec<Vec<char>>, ws: &Vec<Vec<char>>, from: usize, to: usize)
    requires
        from <= to <= ws.len(),
    ensures
        views(final(out)@) == views(old(out)@) + views(ws@).subrange(from as int, to as int),
{
    let ghost start = views(out@);
    let mut i = from;
    while i < to
        invariant
            from <= i <= to <= ws.len(),
            views(out@) == start + views(ws@).subrange(from as int, i as int),
        decreases to - i,
    {
        let w = copy_chars(&ws[i]);
        proof {
            lemma_views_push(out@, w);
        }
        out.push(w);
        assert(views(ws@).subrange(from as int, i + 1) =~= views(ws@).subrange(
            from as int,
            i as int,
        ).push(ws@[i as int]@));
        i = i + 1;
    }
}

/// Whether a word ends with a full stop.
pub fn word_ends_with_dot(w: &Vec<char>) -> (r: bool)
    ensures
        r == ends_with_dot(w@),
{
    w.len() > 0 && w[w.len() - 1] == '.'
}

/// The index of the first word at or after `r` that ends with a full stop;
/// `max(r, len)` when there is none.
pub open spec fn next_dot(ws: Seq<Seq<char>>, r: int) -> int
    decreases ws.len() - r,
{
    if r >= ws.len() {
        r
    } else if ends_with_dot(ws[r]) {
        r
    } else {
        next_dot(ws, r + 1)
    }
}

pub proof fn lemma_next_dot_bounds(ws: Seq<Seq<char>>, r: int)
    ensures
        next_dot(ws, r) >= r,
        r <= ws.len() ==> next_dot(ws, r) <= ws.len(),
        r < next_dot(ws, r) ==> next_dot(ws, r) <= ws.len(),
    decreases ws.len() - r,
{
    if r < ws.len() && !ends_with_dot(ws[r]) {
        lemma_next_dot_bounds(ws, r + 1);
    }
}

/// Executable `next_dot`.
pub fn find_next_dot(ws: &Vec<Vec<char>>, r: usize) -> (k: usize)
    ensures
        k == next_dot(views(ws@), r as int),
{
    if r >= ws.len() {
        return r;
    }
    let mut j = r;
    while j < ws.len()
        invariant
            r <= j <= ws.len(),
            next_dot(views(ws@), r as int) == next_dot(views(ws@), j as int),
        decreases ws.len() - j,
    {
        if word_ends_with_dot(&ws[j]) {
            return j;
        }
        j = j + 1;
    }
    j
}

} // verus!
