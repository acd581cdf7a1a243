use vstd::prelude::*;
use crate::settings::StartEndSentence;
use crate::strings::{chars_of, string_of, copy_chars, spec_is_whitespace};
use crate::words::{views, words_of, split_state, join_words, next_dot, take_at_most, lemma_views_push, ends_with_dot,
    join_with_spaces, split_words, count_words_chars, push_word_range, find_next_dot, lemma_next_dot_bounds};

verus! {

/// `n / d` rounded up.
pub open spec fn div_ceil(n: int, d: int) -> int {
    if n % d == 0 {
        n / d
    } else {
        n / d + 1
    }
}

pub open spec fn sat_sub(a: int, b: int) -> int {
    if a > b {
        a - b
    } else {
        0
    }
}

pub open spec fn min_int(a: int, b: int) -> int {
    if a < b {
        a
    } else {
        b
    }
}

/// `k` copies of the same text.
pub open spec fn copies(text: Seq<char>, k: int) -> Seq<Seq<char>> {
    Seq::new(k as nat, |i: int| text)
}

/// How a text with `total` words is repeated to hold at least `n_words` words,
/// with the word count that is reported for the result.
pub open spec fn extended_text(text: Seq<char>, n_words: int, total: int) -> (Seq<char>, int) {
    if total < n_words {
        let it = div_ceil(n_words, total);
        (join_words(copies(text, it)), total * it + it - 1)
    } else {
        (text, total)
    }
}

/// Whether `extended_text` can be computed without a division by zero or an
/// overflow of the reported count.
pub open spec fn extension_computable(n_words: int, total: int) -> bool {
    total < n_words ==> {
        &&& total > 0
        &&& total * div_ceil(n_words, total) + div_ceil(n_words, total) <= usize::MAX
    }
}

/// The words rotated left by `k`: those from `k` on, then the first `k`
/// (unchanged when `k` is past the end).
pub open spec fn rotate_words(ws: Seq<Seq<char>>, k: int) -> Seq<Seq<char>> {
    if k < ws.len() {
        ws.skip(k) + ws.take(k)
    } else {
        ws
    }
}

/// How many words are skipped from `r` on so that the text starts after a
/// full stop: none at the very beginning.
pub open spec fn sentence_skip(ws: Seq<Seq<char>>, r: int) -> int {
    if r == 0 {
        0
    } else {
        next_dot(ws, r) - r + 1
    }
}

/// The words of the text extended for `n` words, and the offset clamped so
/// that `n` words still follow it.
pub open spec fn extended_words(text: Seq<char>, n: int) -> Seq<Seq<char>> {
    words_of(extended_text(text, n, words_of(text).len() as int).0)
}

pub open spec fn clamped_offset(text: Seq<char>, n: int, r: int) -> int {
    min_int(sat_sub(extended_text(text, n, words_of(text).len() as int).1, n), r)
}

/// `n` words from position `from` on, wrapping to the beginning when the end
/// is reached.
pub open spec fn wrapped_window(ws: Seq<Seq<char>>, from: int, n: int) -> Seq<Seq<char>> {
    take_at_most(ws.skip(from) + take_at_most(ws, sat_sub(n, ws.len() - from)), n)
}

/// The words that the text of a game is made of.
pub open spec fn selected_words(
    text: Seq<char>,
    number_words: Option<usize>,
    r: int,
    start: StartEndSentence,
) -> Seq<Seq<char>> {
    let ws = words_of(text);
    match number_words {
        None => match start {
            StartEndSentence::Any => rotate_words(ws, r),
            _ => rotate_words(ws, r + sentence_skip(ws, r)),
        },
        Some(n) => {
            let ws2 = extended_words(text, n as int);
            let r2 = clamped_offset(text, n as int, r);
            match start {
                StartEndSentence::Any => wrapped_window(ws2, r2, n as int),
                StartEndSentence::Start => wrapped_window(ws2, r2 + sentence_skip(ws2, r2), n as int),
                StartEndSentence::StartEnd => {
                    let s = next_dot(ws2, r2) + 1;
                    let e = next_dot(ws2, s + n);
                    ws2.subrange(min_int(s, ws2.len() as int), min_int(e + 1, ws2.len() as int))
                },
            }
        },
    }
}

/// The inputs on which cutting the text does not fail.
pub open spec fn selection_computable(
    text: Seq<char>,
    number_words: Option<usize>,
    r: int,
    start: StartEndSentence,
) -> bool {
    let ws = words_of(text);
    match number_words {
        None => match start {
            StartEndSentence::Any => true,
            _ => r + sentence_skip(ws, r) <= usize::MAX,
        },
        Some(n) => {
            &&& extension_computable(n as int, ws.len() as int)
            &&& match start {
                StartEndSentence::Any => true,
                StartEndSentence::Start => {
                    let ws2 = extended_words(text, n as int);
                    let r2 = clamped_offset(text, n as int, r);
                    r2 + sentence_skip(ws2, r2) <= ws2.len()
                },
                StartEndSentence::StartEnd => n < usize::MAX,
            }
        },
    }
}

fn div_ceil_usize(n: usize, d: usize) -> (r: usize)
    requires
        d > 0,
    ensures
        r == div_ceil(n as int, d as int),
{
    if n % d == 0 {
        n / d
    } else {
        assert(d >= 2);
        assert(n / d <= n / 2) by (nonlinear_arith)
            requires
                d >= 2,
        ;
        n / d + 1
    }
}

/// Reading a whitespace character closes the word being read, so the words
/// of what follows are simply appended.
pub proof fn lemma_split_concat(p: Seq<char>, b: Seq<char>)
    requires
        split_state(p).1.len() == 0,
    ensures
        split_state(p + b) == (split_state(p).0 + split_state(b).0, split_state(b).1),
    decreases b.len(),
{
    if b.len() == 0 {
        assert(p + b =~= p);
        assert(split_state(p).0 + split_state(b).0 =~= split_state(p).0);
    } else {
        lemma_split_concat(p, b.drop_last());
        assert((p + b).drop_last() =~= p + b.drop_last());
        assert((p + b).last() == b.last());
        let (d, c) = split_state(b.drop_last());
        if spec_is_whitespace(b.last()) && c.len() > 0 {
            assert(split_state(p).0 + d.push(c) =~= (split_state(p).0 + d).push(c));
        }
    }
}

/// The words of two texts joined by a space are the words of the first, then
/// those of the second.
pub proof fn lemma_words_of_join(a: Seq<char>, b: Seq<char>)
    ensures
        words_of(a + seq![' '] + b) == words_of(a) + words_of(b),
{
    let p = a.push(' ');
    assert(p.drop_last() =~= a);
    assert(spec_is_whitespace(' '));
    assert(split_state(p).0 == words_of(a));
    lemma_split_concat(p, b);
    assert(a + seq![' '] + b =~= p + b);
    let (d, c) = split_state(b);
    if c.len() > 0 {
        assert(words_of(a) + d.push(c) =~= (words_of(a) + d).push(c));
    }
}

/// `k` copies of a text joined by spaces hold `k` times its words.
pub proof fn lemma_words_of_copies(t: Seq<char>, k: int)
    requires
        k >= 1,
    ensures
        words_of(join_words(copies(t, k))).len() == k * words_of(t).len(),
    decreases k,
{
    if k == 1 {
        assert(copies(t, 1) =~= seq![t]);
    } else {
        lemma_words_of_copies(t, k - 1);
        assert(copies(t, k).drop_last() =~= copies(t, k - 1));
        lemma_words_of_join(join_words(copies(t, k - 1)), t);
        assert(k * words_of(t).len() == (k - 1) * words_of(t).len() + words_of(t).len())
            by (nonlinear_arith);
    }
}

/// The clamped offset never passes the end of the extended word list.
pub proof fn lemma_clamped_offset_in_range(text: Seq<char>, n: int, r: int)
    requires
        extension_computable(n, words_of(text).len() as int),
        n >= 0,
        r >= 0,
    ensures
        0 <= clamped_offset(text, n, r) <= extended_words(text, n).len(),
{
    let total = words_of(text).len() as int;
    if total < n {
        let it = div_ceil(n, total);
        assert(it >= 1 && it <= n) by (nonlinear_arith)
            requires
                it == div_ceil(n, total),
                n > total > 0,
        {
            assert(n / total >= 1);
            assert(n / total <= n);
            if n % total != 0 {
                assert(n / total < n);
            }
        }
        lemma_words_of_copies(text, it);
        assert(it * total == total * it) by (nonlinear_arith);
        assert(extended_words(text, n).len() == total * it);
        assert(extended_text(text, n, total).1 == total * it + it - 1);
        assert(sat_sub(total * it + it - 1, n) <= total * it);
    } else {
        assert(extended_words(text, n) == words_of(text));
    }
}

/// A text of `total` words repeated for `n` words holds at least `n` words.
proof fn lemma_extended_words_enough(text: Seq<char>, n: int)
    requires
        words_of(text).len() >= 1,
        extension_computable(n, words_of(text).len() as int),
        n >= 0,
    ensures
        extended_words(text, n).len() >= n,
{
    let total = words_of(text).len() as int;
    if total < n {
        let it = div_ceil(n, total);
        assert(it >= 1 && total * it >= n) by (nonlinear_arith)
            requires
                it == div_ceil(n, total),
                n > total > 0,
        {
            assert(n == total * (n / total) + n % total);
            assert(0 <= n % total < total);
            if n % total != 0 {
                assert(total * (n / total + 1) == total * (n / total) + total);
            }
        }
        lemma_words_of_copies(text, it);
        assert(it * total == total * it) by (nonlinear_arith);
    }
}

/// A race text has exactly the asked number of words, whatever the offset,
/// as long as the file has a word: a short text is repeated, and the window
/// of words wraps to the beginning.
pub proof fn law_race_text_has_n_words(text: Seq<char>, n: usize, r: int)
    requires
        words_of(text).len() >= 1,
        extension_computable(n as int, words_of(text).len() as int),
        r >= 0,
    ensures
        selected_words(text, Some(n), r, StartEndSentence::Any).len() == n,
{
    let ws2 = extended_words(text, n as int);
    let r2 = clamped_offset(text, n as int, r);
    lemma_extended_words_enough(text, n as int);
    lemma_clamped_offset_in_range(text, n as int, r);
    let len = ws2.len() as int;
    let a = ws2.skip(r2);
    let b = take_at_most(ws2, sat_sub(n as int, len - r2));
    assert(a.len() == len - r2);
    assert(b.len() == sat_sub(n as int, len - r2));
    assert((a + b).len() >= n);
}

/// A full stop found by `next_dot` inside the list is one.
proof fn lemma_next_dot_found(ws: Seq<Seq<char>>, r: int)
    requires
        0 <= r,
        next_dot(ws, r) < ws.len(),
    ensures
        ends_with_dot(ws[next_dot(ws, r)]),
    decreases ws.len() - r,
{
    if r < ws.len() && !ends_with_dot(ws[r]) {
        lemma_next_dot_found(ws, r + 1);
    }
}

/// A text cut to whole sentences for a race starts right after a full stop
/// and ends on one, and holds more words than asked: the words asked, then
/// those up to the end of the sentence. This holds where the text has a full
/// stop after the words asked.
pub proof fn law_whole_sentences(text: Seq<char>, n: usize, r: int)
    requires
        r >= 0,
    ensures
        ({
            let ws2 = extended_words(text, n as int);
            let d = next_dot(ws2, clamped_offset(text, n as int, r));
            let e = next_dot(ws2, d + 1 + n);
            let cut = selected_words(text, Some(n), r, StartEndSentence::StartEnd);
            (0 <= clamped_offset(text, n as int, r) && e < ws2.len()) ==> {
                &&& ends_with_dot(ws2[d])
                &&& cut == ws2.subrange(d + 1, e + 1)
                &&& cut.len() >= n + 1
                &&& ends_with_dot(cut.last())
            }
        }),
{
    let ws2 = extended_words(text, n as int);
    let r2 = clamped_offset(text, n as int, r);
    let d = next_dot(ws2, r2);
    let e = next_dot(ws2, d + 1 + n);
    if 0 <= r2 && e < ws2.len() {
        lemma_next_dot_bounds(ws2, r2);
        lemma_next_dot_bounds(ws2, d + 1 + n);
        assert(d < ws2.len());
        lemma_next_dot_found(ws2, r2);
        lemma_next_dot_found(ws2, d + 1 + n);
    }
}

pub(crate) fn extend_chars(text: &Vec<char>, n_words: usize, total_n_words: usize) -> (r: (Vec<char>, usize))
    requires
        extension_computable(n_words as int, total_n_words as int),
    ensures
        (r.0@, r.1 as int) == extended_text(text@, n_words as int, total_n_words as int),
{
    if total_n_words < n_words {
        let iteration = div_ceil_usize(n_words, total_n_words);
        assert(n_words as int / total_n_words as int >= 1) by (nonlinear_arith)
            requires
                n_words > total_n_words > 0,
        ;
        assert(iteration >= 1);
        assert(total_n_words * iteration <= usize::MAX);
        let reported = total_n_words * iteration + iteration - 1;
        let mut parts: Vec<Vec<char>> = Vec::new();
        let mut i: usize = 0;
        while i < iteration
            invariant
                i <= iteration,
                views(parts@) == copies(text@, i as int),
            decreases iteration - i,
        {
            let c = copy_chars(text);
            proof {
                lemma_views_push(parts@, c);
            }
            parts.push(c);
            assert(copies(text@, i + 1) =~= copies(text@, i as int).push(text@));
            i = i + 1;
        }
        let joined = join_with_spaces(&parts);
        (joined, reported)
    } else {
        (copy_chars(text), total_n_words)
    }
}

/// Repeats a text that has fewer than `n_words` words often enough to hold
/// them, joined by single spaces, and reports a word count for the result.
pub fn extend_text_if_needed(text: String, n_words: usize, total_n_words: usize) -> (r: (
    String,
    usize,
))
    requires
        extension_computable(n_words as int, total_n_words as int),
    ensures
        (r.0@, r.1 as int) == extended_text(text@, n_words as int, total_n_words as int),
{
    let chars = chars_of(text.as_str());
    let (v, n) = extend_chars(&chars, n_words, total_n_words);
    (string_of(&v), n)
}

} // verus!

verus! {

fn rotate_exec(ws: &Vec<Vec<char>>, k: usize) -> (r: Vec<Vec<char>>)
    ensures
        views(r@) == rotate_words(views(ws@), k as int),
{
    let mut out: Vec<Vec<char>> = Vec::new();
    if k < ws.len() {
        push_word_range(&mut out, ws, k, ws.len());
        push_word_range(&mut out, ws, 0, k);
        assert(views(out@) =~= views(ws@).skip(k as int) + views(ws@).take(k as int));
    } else {
        push_word_range(&mut out, ws, 0, ws.len());
        assert(views(out@) =~= views(ws@));
    }
    out
}

fn window_exec(ws: &Vec<Vec<char>>, from: usize, n: usize) -> (r: Vec<Vec<char>>)
    requires
        from <= ws.len(),
    ensures
        views(r@) == wrapped_window(views(ws@), from as int, n as int),
{
    let len = ws.len();
    let tail = len - from;
    let mut out: Vec<Vec<char>> = Vec::new();
    let first = if n < tail {
        n
    } else {
        tail
    };
    push_word_range(&mut out, ws, from, from + first);
    let extra = if n > tail {
        n - tail
    } else {
        0
    };
    let extra_taken = if extra < len {
        extra
    } else {
        len
    };
    let rest = n - first;
    let second = if rest < extra_taken {
        rest
    } else {
        extra_taken
    };
    push_word_range(&mut out, ws, 0, second);
    let ghost vs = views(ws@);
    let ghost a = vs.skip(from as int);
    let ghost b = take_at_most(vs, sat_sub(n as int, len - from));
    assert(b =~= vs.take(extra_taken as int));
    assert(views(out@) =~= take_at_most(a + b, n as int));
    out
}

/// The words of the text of a game, as `selected_words` states.
fn select_words_exec(
    text: &Vec<char>,
    number_words: Option<usize>,
    real_offset: usize,
    start: StartEndSentence,
) -> (r: Vec<Vec<char>>)
    requires
        selection_computable(text@, number_words, real_offset as int, start),
    ensures
        views(r@) == selected_words(text@, number_words, real_offset as int, start),
{
    let ws = split_words(text);
    match number_words {
        None => {
            match start {
                StartEndSentence::Any => rotate_exec(&ws, real_offset),
                _ => {
                    let mut skip: usize = 0;
                    if real_offset > 0 {
                        let d = find_next_dot(&ws, real_offset);
                        proof {
                            lemma_next_dot_bounds(views(ws@), real_offset as int);
                        }
                        skip = d - real_offset + 1;
                    }
                    rotate_exec(&ws, real_offset + skip)
                },
            }
        },
        Some(n) => {
            let total = ws.len();
            let (text2, total2) = extend_chars(text, n, total);
            let ws2 = split_words(&text2);
            let max_offset = if total2 > n {
                total2 - n
            } else {
                0
            };
            let r2 = if max_offset < real_offset {
                max_offset
            } else {
                real_offset
            };
            proof {
                lemma_clamped_offset_in_range(text@, n as int, real_offset as int);
                assert(views(ws2@) == extended_words(text@, n as int));
                assert(r2 == clamped_offset(text@, n as int, real_offset as int));
            }
            match start {
                StartEndSentence::Any => window_exec(&ws2, r2, n),
                StartEndSentence::Start => {
                    let mut skip: usize = 0;
                    if r2 > 0 {
                        let d = find_next_dot(&ws2, r2);
                        proof {
                            lemma_next_dot_bounds(views(ws2@), r2 as int);
                        }
                        skip = d - r2 + 1;
                    }
                    assert(skip == sentence_skip(views(ws2@), r2 as int));
                    assert(r2 + sentence_skip(views(ws2@), r2 as int) <= ws2.len());
                    window_exec(&ws2, r2 + skip, n)
                },
                StartEndSentence::StartEnd => {
                    let d = find_next_dot(&ws2, r2);
                    proof {
                        lemma_next_dot_bounds(views(ws2@), r2 as int);
                    }
                    let s = if d < ws2.len() {
                        d + 1
                    } else {
                        ws2.len()
                    };
                    let len = ws2.len();
                    let end = if n >= len - s {
                        len
                    } else {
                        let e = find_next_dot(&ws2, s + n);
                        proof {
                            lemma_next_dot_bounds(views(ws2@), (s + n) as int);
                        }
                        if e < len {
                            e + 1
                        } else {
                            len
                        }
                    };
                    proof {
                        if n >= len - s {
                            lemma_next_dot_bounds(views(ws2@), s + n);
                        }
                    }
                    let mut out: Vec<Vec<char>> = Vec::new();
                    push_word_range(&mut out, &ws2, s, end);
                    out
                },
            }
        },
    }
}

} // verus!

verus! {

/// The number of words of a text (its maximal runs of non-whitespace
/// characters).
pub fn count_words(text: &str) -> (r: usize)
    ensures
        r == words_of(text@).len(),
{
    let chars = chars_of(text);
    count_words_chars(&chars)
}

/// Cuts the text of a game out of a text file: `number_words` words (all of
/// them when `None`), starting `real_offset` words in and wrapping around,
/// moved forward to the start of a sentence or cut at whole sentences as
/// `start` asks; the words are joined by single spaces.
pub fn select_text(
    text: &str,
    number_words: Option<usize>,
    real_offset: usize,
    start: StartEndSentence,
) -> (r: String)
    requires
        selection_computable(text@, number_words, real_offset as int, start),
    ensures
        r@ == join_words(selected_words(text@, number_words, real_offset as int, start)),
{
    let chars = chars_of(text);
    let ws = select_words_exec(&chars, number_words, real_offset, start);
    let joined = join_with_spaces(&ws);
    string_of(&joined)
}

/// Whether `select_text` can cut the text without failing.
pub fn can_select_text(
    text: &str,
    number_words: Option<usize>,
    real_offset: usize,
    start: StartEndSentence,
) -> (r: bool)
    ensures
        r == selection_computable(text@, number_words, real_offset as int, start),
{
    let chars = chars_of(text);
    let ws = split_words(&chars);
    match number_words {
        None => match start {
            StartEndSentence::Any => true,
            _ => {
                if real_offset == 0 {
                    true
                } else {
                    let d = find_next_dot(&ws, real_offset);
                    proof {
                        lemma_next_dot_bounds(views(ws@), real_offset as int);
                    }
                    // real_offset + (d - real_offset + 1) <= usize::MAX
                    d < usize::MAX
                }
            },
        },
        Some(n) => {
            let total = ws.len();
            let computable = if total < n {
                if total == 0 {
                    false
                } else {
                    let it = div_ceil_usize(n, total);
                    let (_prod, ok) = checked_mul_add(total, it);
                    ok
                }
            } else {
                true
            };
            if !computable {
                return false;
            }
            match start {
                StartEndSentence::Any => true,
                StartEndSentence::StartEnd => n < usize::MAX,
                StartEndSentence::Start => {
                    let (text2, total2) = extend_chars(&chars, n, total);
                    let ws2 = split_words(&text2);
                    let max_offset = if total2 > n {
                        total2 - n
                    } else {
                        0
                    };
                    let r2 = if max_offset < real_offset {
                        max_offset
                    } else {
                        real_offset
                    };
                    proof {
                        lemma_clamped_offset_in_range(chars@, n as int, real_offset as int);
                        assert(views(ws2@) == extended_words(chars@, n as int));
                    }
                    if r2 == 0 {
                        true
                    } else {
                        let d = find_next_dot(&ws2, r2);
                        proof {
                            lemma_next_dot_bounds(views(ws2@), r2 as int);
                        }
                        d < ws2.len()
                    }
                },
            }
        },
    }
}

/// Whether `a * b + b` fits in a `usize`.
fn checked_mul_add(a: usize, b: usize) -> (r: (usize, bool))
    ensures
        r.1 == (a * b + b <= usize::MAX),
        r.1 ==> r.0 == a * b + b,
{
    match a.checked_mul(b) {
        Some(p) => match p.checked_add(b) {
            Some(q) => (q, true),
            None => (0, false),
        },
        None => {
            assert(a * b + b > usize::MAX) by (nonlinear_arith)
                requires
                    a * b > usize::MAX,
                    b >= 0,
            ;
            (0, false)
        },
    }
}

} // verus!

verus! {

//------------------------------------------------------------------
//    What the text of a race is made of
//------------------------------------------------------------------

/// Word `i` of the words read round: past the end, reading goes on from the
/// first word again.
pub open spec fn word_round(ws: Seq<Seq<char>>, i: int) -> Seq<char> {
    if i < ws.len() {
        ws[i]
    } else {
        ws[i - ws.len()]
    }
}

/// `res` is made of the words of `ws` read from `from` on, going round to
/// the first word, `n` of them (fewer only when going round once does not
/// give `n`).
pub open spec fn read_round_from(res: Seq<Seq<char>>, ws: Seq<Seq<char>>, from: int, n: int) -> bool {
    &&& res.len() == min_int(n, 2 * ws.len() - from)
    &&& forall|i: int| 0 <= i < res.len() ==> #[trigger] res[i] == word_round(ws, from + i)
}

/// `d` is the first word at or after `r` that ends a sentence.
pub open spec fn first_sentence_end(ws: Seq<Seq<char>>, r: int, d: int) -> bool {
    &&& r <= d < ws.len()
    &&& ends_with_dot(ws[d])
    &&& forall|k: int| r <= k < d ==> !ends_with_dot(#[trigger] ws[k])
}

proof fn lemma_wrapped_window_reads_round(ws: Seq<Seq<char>>, from: int, n: int)
    requires
        0 <= from <= ws.len(),
        n >= 0,
    ensures
        read_round_from(wrapped_window(ws, from, n), ws, from, n),
{
    let a = ws.skip(from);
    let b = take_at_most(ws, sat_sub(n, ws.len() - from));
    let res = wrapped_window(ws, from, n);
    assert(res == take_at_most(a + b, n));
    assert forall|i: int| 0 <= i < res.len() implies #[trigger] res[i] == word_round(ws, from + i) by {
        assert(res[i] == (a + b)[i]);
        if i < a.len() {
            assert((a + b)[i] == a[i]);
        } else {
            assert((a + b)[i] == b[i - a.len()]);
        }
    }
}

proof fn lemma_next_dot_is_first(ws: Seq<Seq<char>>, r: int)
    requires
        0 <= r,
        next_dot(ws, r) < ws.len(),
    ensures
        first_sentence_end(ws, r, next_dot(ws, r)),
    decreases ws.len() - r,
{
    if r < ws.len() && !ends_with_dot(ws[r]) {
        lemma_next_dot_is_first(ws, r + 1);
    }
}

/// `res` is all the words of `ws`, read round from word `from` on.
pub open spec fn rotated_from(res: Seq<Seq<char>>, ws: Seq<Seq<char>>, from: int) -> bool {
    &&& res.len() == ws.len()
    &&& forall|i: int| 0 <= i < res.len() ==> #[trigger] res[i] == word_round(ws, from + i)
}

/// No word from `r` on ends a sentence.
pub open spec fn no_sentence_end_from(ws: Seq<Seq<char>>, r: int) -> bool {
    forall|k: int| r <= k < ws.len() ==> !ends_with_dot(#[trigger] ws[k])
}

proof fn lemma_next_dot_none(ws: Seq<Seq<char>>, r: int)
    requires
        0 <= r,
        next_dot(ws, r) >= ws.len(),
    ensures
        no_sentence_end_from(ws, r),
    decreases ws.len() - r,
{
    if r < ws.len() {
        lemma_next_dot_none(ws, r + 1);
    }
}

proof fn lemma_rotate_reads_round(ws: Seq<Seq<char>>, k: int)
    requires
        0 <= k,
    ensures
        k <= ws.len() ==> rotated_from(rotate_words(ws, k), ws, k),
        k >= ws.len() ==> rotate_words(ws, k) == ws,
{
    let res = rotate_words(ws, k);
    if k < ws.len() {
        assert forall|i: int| 0 <= i < res.len() implies #[trigger] res[i] == word_round(ws, k + i) by {
            if i < ws.len() - k {
                assert(res[i] == ws.skip(k)[i]);
            } else {
                assert(res[i] == ws.take(k)[i - (ws.len() - k)]);
            }
        }
    } else if k == ws.len() {
        assert forall|i: int| 0 <= i < res.len() implies #[trigger] res[i] == word_round(ws, k + i) by {
        }
    }
}

/// The whole text of a game without a word count is all its words, read
/// round from the offset on (unchanged when the offset is past the end);
/// asked to start at a sentence, reading starts right after the first word
/// from the offset on that ends a sentence, and the text is left as it is
/// when no word from there on ends one.
pub proof fn law_whole_text_from_offset(text: Seq<char>, r: int, start: StartEndSentence)
    requires
        r >= 0,
        selection_computable(text, None, r, start),
    ensures
        ({
            let ws = words_of(text);
            let res = selected_words(text, None, r, start);
            &&& start is Any && r <= ws.len() ==> rotated_from(res, ws, r)
            &&& start is Any && r > ws.len() ==> res == ws
            &&& !(start is Any) && r == 0 ==> res == ws
            &&& !(start is Any) && r > 0 ==> {
                ||| exists|d: int| first_sentence_end(ws, r, d) && rotated_from(res, ws, d + 1)
                ||| no_sentence_end_from(ws, r) && res == ws
            }
        }),
{
    let ws = words_of(text);
    if start is Any {
        lemma_rotate_reads_round(ws, r);
    } else if r == 0 {
        lemma_rotate_reads_round(ws, 0);
    } else {
        let d = next_dot(ws, r);
        lemma_next_dot_bounds(ws, r);
        lemma_rotate_reads_round(ws, d + 1);
        if d < ws.len() {
            lemma_next_dot_is_first(ws, r);
            assert(first_sentence_end(ws, r, d));
        } else {
            lemma_next_dot_none(ws, r);
        }
    }
}

/// A race asked to start and end at sentences: it starts right after the
/// first word from the offset on that ends a sentence (and is empty when no
/// word does), takes the words that follow in order, and after the words asked
/// for goes on up to the first word that ends a sentence (or the end of the
/// text).
pub proof fn law_race_text_whole_sentences(text: Seq<char>, n: usize, r: int)
    requires
        r >= 0,
        selection_computable(text, Some(n), r, StartEndSentence::StartEnd),
    ensures
        ({
            let ws2 = extended_words(text, n as int);
            let r2 = clamped_offset(text, n as int, r);
            let res = selected_words(text, Some(n), r, StartEndSentence::StartEnd);
            let m = res.len() as int;
            &&& no_sentence_end_from(ws2, r2) ==> m == 0
            &&& forall|d: int| #[trigger] first_sentence_end(ws2, r2, d) ==> {
                let s = d + 1;
                &&& s + m <= ws2.len()
                &&& forall|i: int| 0 <= i < m ==> #[trigger] res[i] == ws2[s + i]
                &&& s + n >= ws2.len() ==> s + m == ws2.len()
                &&& s + n < ws2.len() ==> {
                    &&& n < m
                    &&& forall|j: int| n <= j < m - 1 ==> !ends_with_dot(#[trigger] res[j])
                    &&& ends_with_dot(res[m - 1]) || s + m == ws2.len()
                }
            }
        }),
{
    let ws2 = extended_words(text, n as int);
    let r2 = clamped_offset(text, n as int, r);
    let res = selected_words(text, Some(n), r, StartEndSentence::StartEnd);
    lemma_clamped_offset_in_range(text, n as int, r);
    let d0 = next_dot(ws2, r2);
    lemma_next_dot_bounds(ws2, r2);
    let s = d0 + 1;
    let e = next_dot(ws2, s + n);
    lemma_next_dot_bounds(ws2, s + n);
    if d0 < ws2.len() {
        lemma_next_dot_is_first(ws2, r2);
        assert forall|d: int| #[trigger] first_sentence_end(ws2, r2, d) implies {
            let s = d + 1;
            let m = res.len() as int;
            &&& s + m <= ws2.len()
            &&& forall|i: int| 0 <= i < m ==> #[trigger] res[i] == ws2[s + i]
            &&& s + n >= ws2.len() ==> s + m == ws2.len()
            &&& s + n < ws2.len() ==> {
                &&& n < m
                &&& forall|j: int| n <= j < m - 1 ==> !ends_with_dot(#[trigger] res[j])
                &&& ends_with_dot(res[m - 1]) || s + m == ws2.len()
            }
        } by {
            assert(d == d0) by {
                if d < d0 {
                    assert(!ends_with_dot(ws2[d]));
                } else if d > d0 {
                    assert(!ends_with_dot(ws2[d0]));
                }
            }
            if s + n < ws2.len() {
                if e < ws2.len() {
                    lemma_next_dot_is_first(ws2, s + n);
                } else {
                    lemma_next_dot_none(ws2, s + n);
                }
                assert forall|j: int| n <= j < res.len() - 1 implies !ends_with_dot(#[trigger] res[j]) by {
                    assert(res[j] == ws2[s + j]);
                }
            }
        }
    } else {
        lemma_next_dot_none(ws2, r2);
        assert forall|d: int| #[trigger] first_sentence_end(ws2, r2, d) implies false by {
            assert(!ends_with_dot(ws2[d]));
        }
    }
}

/// The text of a race is read round from the offset on; asked to start at a
/// sentence, it starts right after the first word from the offset on that
/// ends a sentence (from the very first word at offset zero).
pub proof fn law_race_text_from_offset(
    text: Seq<char>,
    n: usize,
    r: int,
    start: StartEndSentence,
)
    requires
        r >= 0,
        selection_computable(text, Some(n), r, start),
        start is Any || start is Start,
    ensures
        ({
            let ws2 = extended_words(text, n as int);
            let r2 = clamped_offset(text, n as int, r);
            let res = selected_words(text, Some(n), r, start);
            &&& 0 <= r2 <= r
            &&& start is Any ==> read_round_from(res, ws2, r2, n as int)
            &&& start is Start && r2 == 0 ==> read_round_from(res, ws2, 0, n as int)
            &&& start is Start && r2 > 0 ==> exists|d: int|
                first_sentence_end(ws2, r2, d) && read_round_from(res, ws2, d + 1, n as int)
        }),
{
    let ws2 = extended_words(text, n as int);
    let r2 = clamped_offset(text, n as int, r);
    lemma_clamped_offset_in_range(text, n as int, r);
    if start is Any {
        lemma_wrapped_window_reads_round(ws2, r2, n as int);
    } else if r2 == 0 {
        lemma_wrapped_window_reads_round(ws2, 0, n as int);
    } else {
        let d = next_dot(ws2, r2);
        lemma_next_dot_bounds(ws2, r2);
        lemma_next_dot_is_first(ws2, r2);
        lemma_wrapped_window_reads_round(ws2, d + 1, n as int);
        assert(first_sentence_end(ws2, r2, d));
    }
}

} // verus!
