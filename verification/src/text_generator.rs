use vstd::prelude::*;
use rand::rngs::StdRng;
use rand::seq::IndexedRandom;
use rand::rngs::OsRng;
use rand::{SeedableRng, TryRngCore};
use crate::strings::{chars_of, string_of};

verus! {

#[verifier::external_type_specification]
#[verifier::external_body]
pub struct ExStdRng(StdRng);

/// The generator that `StdRng::seed_from_u64` makes from a seed: the same
/// seed gives a generator in the same state.
pub uninterp spec fn seeded(seed: u64) -> StdRng;

/// `rand::rngs::StdRng::seed_from_u64`: a generator seeded with `seed`; its
/// state is a function of the seed alone, named `seeded`.
#[verifier::external_body]
fn rng_from_seed(seed: u64) -> (r: StdRng)
    ensures
        r == seeded(seed),
{
    StdRng::seed_from_u64(seed)
}

/// `rand::rngs::StdRng::try_from_os_rng`: a generator seeded by the
/// operating system, or `None` when the operating system's random source
/// fails. Nothing more is stated: both the state and the failure come from
/// the operating system.
#[verifier::external_body]
fn rng_from_os() -> Option<StdRng> {
    StdRng::try_from_os_rng().ok()
}

/// `Clone::clone` on `StdRng` (derived): a generator in the same state.
#[verifier::external_body]
fn clone_rng(rng: &StdRng) -> (r: StdRng)
    ensures
        r == *rng,
{
    rng.clone()
}

/// `TryRngCore::try_next_u64` on `rand::rngs::OsRng`: a random number from
/// the operating system, or `None` when its random source fails; any `u64`
/// may come back.
#[verifier::external_body]
pub(crate) fn random_seed() -> Option<u64> {
    OsRng.try_next_u64().ok()
}

/// The state that `IndexedRandom::choose` leaves a generator in after
/// choosing from a list of `len` items: the draw of an index below `len`
/// moves the state, as a function of the length and the state alone.
pub uninterp spec fn rng_after_choose(len: nat, rng: StdRng) -> StdRng;

/// The state of a generator after `k` choices from a list of `len` items.
pub open spec fn rng_after_draws(k: nat, len: nat, rng: StdRng) -> StdRng
    decreases k,
{
    if k == 0 {
        rng
    } else {
        rng_after_choose(len, rng_after_draws((k - 1) as nat, len, rng))
    }
}

/// The index that `IndexedRandom::choose` draws from a list of `len` items
/// with a generator in a given state (`random_range(..len)`): a function of
/// the length and the state alone.
pub uninterp spec fn chosen_index(len: nat, rng: StdRng) -> int;

/// The texts of the words of a list.
pub open spec fn word_views(words: Seq<String>) -> Seq<Seq<char>> {
    words.map_values(|w: String| w@)
}

/// The words drawn one after the other by `n` choices from a list with a
/// generator starting in state `rng`; none from an empty list.
pub open spec fn drawn_words(words: Seq<Seq<char>>, n: nat, rng: StdRng) -> Seq<Seq<char>>
    decreases n,
{
    if words.len() == 0 || n == 0 {
        Seq::empty()
    } else {
        drawn_words(words, (n - 1) as nat, rng).push(
            words[chosen_index(words.len(), rng_after_draws((n - 1) as nat, words.len(), rng))],
        )
    }
}

/// `IndexedRandom::choose` on the word list, then `cloned`: `None` exactly
/// when the list is empty, otherwise the word at the index drawn, named
/// `chosen_index`, which is below the length. The generator moves on as
/// `rng_after_choose` names it; an empty list leaves it untouched.
#[verifier::external_body]
fn choose_word(words: &Vec<String>, rng: &mut StdRng) -> (r: Option<String>)
    ensures
        r is None <==> words@.len() == 0,
        r matches Some(w) ==> exists|i: int| 0 <= i < words@.len() && words@[i]@ == w@,
        words@.len() > 0 ==> 0 <= chosen_index(words@.len(), *old(rng)) < words@.len(),
        r matches Some(w) ==> w@ == words@[chosen_index(words@.len(), *old(rng))]@,
        *final(rng) == rng_after_choose(words@.len(), *old(rng)),
        words@.len() == 0 ==> *final(rng) == *old(rng),
{
    words.choose(rng).cloned()
}

/// A list of words read from a language file.
pub struct WordList {
    pub name: String,
    pub words: Vec<String>,
}

/// Whether `w` is one of the words of the list.
pub open spec fn in_word_list(words: Seq<String>, w: Seq<char>) -> bool {
    exists|i: int| 0 <= i < words.len() && words[i]@ == w
}

/// Draws words at random from a word list.
pub struct TextGenerator {
    pub word_list: WordList,
    pub rng: StdRng,
}

impl TextGenerator {
    /// A generator over the list, seeded with `seed` when one is given and by
    /// the operating system otherwise; `None` only when no seed is given and
    /// the operating system's random source fails.
    pub fn from_language(word_list: WordList, seed: Option<u64>) -> (r: Option<TextGenerator>)
        ensures
            seed matches Some(s) ==> r matches Some(g) && g.word_list == word_list && g.rng == seeded(s),
            r matches Some(g) ==> g.word_list == word_list,
    {
        match seed {
            Some(s) => Some(TextGenerator { word_list, rng: rng_from_seed(s) }),
            None => match rng_from_os() {
                Some(rng) => Some(TextGenerator { word_list, rng }),
                None => None,
            },
        }
    }

    /// A copy of the generator, in the same state.
    pub fn clone_generator(&self) -> (r: TextGenerator)
        ensures
            r.word_list.words@.len() == self.word_list.words@.len(),
            forall|i: int|
                0 <= i < self.word_list.words@.len() ==> r.word_list.words@[i]@
                    == self.word_list.words@[i]@,
            r.rng == self.rng,
    {
        let mut words: Vec<String> = Vec::new();
        for i in 0..self.word_list.words.len()
            invariant
                words@.len() == i,
                forall|j: int| 0 <= j < i ==> words@[j]@ == self.word_list.words@[j]@,
        {
            words.push(self.word_list.words[i].clone());
        }
        TextGenerator {
            word_list: WordList { name: self.word_list.name.clone(), words },
            rng: clone_rng(&self.rng),
        }
    }

    /// The next word drawn from the list: `None` exactly when the list is
    /// empty.
    pub fn next_word(&mut self) -> (r: Option<String>)
        ensures
            final(self).word_list == old(self).word_list,
            r is None <==> old(self).word_list.words@.len() == 0,
            r matches Some(w) ==> in_word_list(old(self).word_list.words@, w@),
            final(self).rng == rng_after_choose(old(self).word_list.words@.len(), old(self).rng),
            old(self).word_list.words@.len() == 0 ==> final(self).rng == old(self).rng,
            old(self).word_list.words@.len() > 0 ==> 0 <= chosen_index(
                old(self).word_list.words@.len(),
                old(self).rng,
            ) < old(self).word_list.words@.len(),
            r matches Some(w) ==> w@ == old(self).word_list.words@[chosen_index(
                old(self).word_list.words@.len(),
                old(self).rng,
            )]@,
    {
        choose_word(&self.word_list.words, &mut self.rng)
    }

    /// Draws `n` words and drops them: the generator moves on by `n` draws.
    pub fn skip_n(&mut self, n: usize)
        ensures
            final(self).word_list == old(self).word_list,
            final(self).rng == rng_after_draws(n as nat, old(self).word_list.words@.len(), old(self).rng),
    {
        for i in 0..n
            invariant
                self.word_list == old(self).word_list,
                self.rng == rng_after_draws(i as nat, old(self).word_list.words@.len(), old(self).rng),
        {
            let _ = self.next_word();
        }
    }

    /// Up to `n` words drawn from the list, stopping at the first draw that
    /// gives nothing: `n` words when the list is not empty, none otherwise.
    pub fn take_words(&mut self, n: usize) -> (r: Vec<String>)
        ensures
            final(self).word_list == old(self).word_list,
            r@.len() == (if old(self).word_list.words@.len() == 0 {
                0
            } else {
                n as int
            }),
            forall|i: int| 0 <= i < r@.len() ==> in_word_list(old(self).word_list.words@, #[trigger] r@[i]@),
            final(self).rng == (if old(self).word_list.words@.len() == 0 {
                old(self).rng
            } else {
                rng_after_draws(n as nat, old(self).word_list.words@.len(), old(self).rng)
            }),
            word_views(r@) == drawn_words(word_views(old(self).word_list.words@), n as nat, old(self).rng),
    {
        let mut out: Vec<String> = Vec::new();
        let mut i: usize = 0;
        while i < n
            invariant
                self.word_list == old(self).word_list,
                i <= n,
                out@.len() == (if old(self).word_list.words@.len() == 0 {
                    0
                } else {
                    i as int
                }),
                forall|j: int| 0 <= j < out@.len() ==> in_word_list(old(self).word_list.words@, #[trigger] out@[j]@),
                old(self).word_list.words@.len() == 0 ==> self.rng == old(self).rng,
                old(self).word_list.words@.len() > 0 ==> self.rng == rng_after_draws(
                    i as nat,
                    old(self).word_list.words@.len(),
                    old(self).rng,
                ),
                word_views(out@) == drawn_words(word_views(old(self).word_list.words@), i as nat, old(self).rng),
            decreases n - i,
        {
            let ghost before = out@;
            match self.next_word() {
                Some(w) => {
                    proof {
                        let wv = word_views(old(self).word_list.words@);
                        let len = old(self).word_list.words@.len();
                        let k = chosen_index(len, rng_after_draws(i as nat, len, old(self).rng));
                        assert(wv.len() == len);
                        assert(wv[k] == w@);
                        assert(drawn_words(wv, (i + 1) as nat, old(self).rng) == drawn_words(
                            wv,
                            i as nat,
                            old(self).rng,
                        ).push(wv[k]));
                    }
                    out.push(w);
                    assert(word_views(out@) =~= word_views(before).push(w@));
                },
                None => {
                    return out;
                },
            }
            i = i + 1;
        }
        out
    }
}

/// The same seed gives the same text: two generators made from the same
/// word list with the same seed draw the same words, however many.
pub proof fn law_same_seed_same_words(a: TextGenerator, b: TextGenerator, seed: u64, n: nat)
    requires
        a.rng == seeded(seed),
        b.rng == seeded(seed),
        word_views(a.word_list.words@) == word_views(b.word_list.words@),
    ensures
        drawn_words(word_views(a.word_list.words@), n, a.rng) == drawn_words(
            word_views(b.word_list.words@),
            n,
            b.rng,
        ),
{
}

//------------------------------------------------------------------
//    Cleaning a text read from a file
//------------------------------------------------------------------

pub open spec fn is_punctuation(c: char) -> bool {
    c == '.' || c == ',' || c == '!' || c == '?' || c == ':' || c == ';'
}

/// The text with every newline replaced by a space.
pub open spec fn without_newlines(s: Seq<char>) -> Seq<char> {
    s.map_values(|c: char| if c == '\n' { ' ' } else { c })
}

/// What character `i` of `r` (a text without newlines) becomes: a space that
/// follows a space is dropped, a punctuation mark followed by something other
/// than a space gets a space after it, every other character is kept.
pub open spec fn formatted_piece(r: Seq<char>, i: int) -> Seq<char> {
    let c = r[i];
    if c == ' ' && i > 0 && r[i - 1] == ' ' {
        Seq::empty()
    } else if is_punctuation(c) && i + 1 < r.len() && r[i + 1] != ' ' {
        seq![c, ' ']
    } else {
        seq![c]
    }
}

/// The pieces of the first `k` characters of `r`, in order.
pub open spec fn formatted_prefix(r: Seq<char>, k: int) -> Seq<char>
    decreases k,
{
    if k <= 0 {
        Seq::empty()
    } else {
        formatted_prefix(r, k - 1) + formatted_piece(r, k - 1)
    }
}

/// The cleaned text: newlines become spaces, runs of spaces become one
/// space, and a space is put after each punctuation mark that is directly
/// followed by another character.
pub open spec fn formatted_text(s: Seq<char>) -> Seq<char> {
    formatted_prefix(without_newlines(s), without_newlines(s).len() as int)
}

/// No space follows a space.
pub open spec fn no_double_space(s: Seq<char>) -> bool {
    forall|i: int| 0 <= i < s.len() - 1 ==> !(#[trigger] s[i] == ' ' && s[i + 1] == ' ')
}

/// The cleaned text of the first `k` characters ends with a space exactly
/// when the last of them is a space, or a punctuation mark directly followed
/// by another character.
proof fn lemma_formatted_prefix_last(r: Seq<char>, k: int)
    requires
        1 <= k <= r.len(),
    ensures
        formatted_prefix(r, k).len() > 0,
        (formatted_prefix(r, k).last() == ' ') == (r[k - 1] == ' ' || (is_punctuation(r[k - 1]) && k < r.len()
            && r[k] != ' ')),
    decreases k,
{
    let p = formatted_prefix(r, k - 1);
    let piece = formatted_piece(r, k - 1);
    assert(formatted_prefix(r, k) == p + piece);
    if piece.len() == 0 {
        lemma_formatted_prefix_last(r, k - 1);
        assert(p + piece =~= p);
    } else {
        assert((p + piece).last() == piece.last());
    }
}

/// The cleaned text of the first `k` characters has no two spaces in a row.
proof fn lemma_formatted_prefix_no_double_space(r: Seq<char>, k: int)
    requires
        0 <= k <= r.len(),
    ensures
        no_double_space(formatted_prefix(r, k)),
    decreases k,
{
    if k > 0 {
        lemma_formatted_prefix_no_double_space(r, k - 1);
        let p = formatted_prefix(r, k - 1);
        let piece = formatted_piece(r, k - 1);
        let q = p + piece;
        assert(formatted_prefix(r, k) == q);
        if k > 1 {
            lemma_formatted_prefix_last(r, k - 1);
        }
        assert forall|i: int| 0 <= i < q.len() - 1 implies !(#[trigger] q[i] == ' ' && q[i + 1] == ' ') by {
            if i + 1 < p.len() {
                assert(q[i] == p[i] && q[i + 1] == p[i + 1]);
            } else if i + 1 == p.len() {
                assert(q[i] == p.last());
                assert(q[i + 1] == piece[0]);
            } else {
                assert(q[i] == piece[i - p.len()]);
                assert(q[i + 1] == piece[i + 1 - p.len()]);
            }
        }
    }
}

/// Every punctuation mark but a last one is followed by a space.
pub open spec fn punctuation_spaced(s: Seq<char>) -> bool {
    forall|i: int| 0 <= i < s.len() - 1 ==> is_punctuation(#[trigger] s[i]) ==> s[i + 1] == ' '
}

/// The text without its spaces and line breaks.
pub open spec fn without_blanks(s: Seq<char>) -> Seq<char>
    decreases s.len(),
{
    if s.len() == 0 {
        Seq::empty()
    } else if s.last() == ' ' || s.last() == '\n' {
        without_blanks(s.drop_last())
    } else {
        without_blanks(s.drop_last()).push(s.last())
    }
}

proof fn lemma_without_blanks_add(a: Seq<char>, b: Seq<char>)
    ensures
        without_blanks(a + b) == without_blanks(a) + without_blanks(b),
    decreases b.len(),
{
    if b.len() == 0 {
        assert(a + b =~= a);
        assert(without_blanks(a) + without_blanks(b) =~= without_blanks(a));
    } else {
        lemma_without_blanks_add(a, b.drop_last());
        assert((a + b).drop_last() =~= a + b.drop_last());
        assert((a + b).last() == b.last());
        if !(b.last() == ' ' || b.last() == '\n') {
            assert(without_blanks(a) + without_blanks(b.drop_last()).push(b.last()) =~= (without_blanks(a)
                + without_blanks(b.drop_last())).push(b.last()));
        }
    }
}

/// Replacing line breaks by spaces keeps what is left without blanks.
proof fn lemma_without_blanks_newlines(s: Seq<char>)
    ensures
        without_blanks(without_newlines(s)) == without_blanks(s),
    decreases s.len(),
{
    if s.len() > 0 {
        assert(without_newlines(s).drop_last() =~= without_newlines(s.drop_last()));
        lemma_without_blanks_newlines(s.drop_last());
    }
}

/// Cleaning keeps every character that is not a blank, in order.
proof fn lemma_formatted_prefix_blanks(r: Seq<char>, k: int)
    requires
        0 <= k <= r.len(),
    ensures
        without_blanks(formatted_prefix(r, k)) == without_blanks(r.take(k)),
    decreases k,
{
    if k == 0 {
        assert(r.take(0) =~= Seq::<char>::empty());
    } else {
        lemma_formatted_prefix_blanks(r, k - 1);
        let p = formatted_prefix(r, k - 1);
        let piece = formatted_piece(r, k - 1);
        lemma_without_blanks_add(p, piece);
        assert(r.take(k) =~= r.take(k - 1) + seq![r[k - 1]]);
        lemma_without_blanks_add(r.take(k - 1), seq![r[k - 1]]);
        let c = r[k - 1];
        assert(seq![c].drop_last() =~= Seq::<char>::empty());
        if piece.len() == 2 {
            assert(piece.drop_last() =~= seq![c]);
        } else if piece.len() == 0 {
            assert(c == ' ');
        }
    }
}

/// The pieces of the first `k` characters end on a punctuation mark only
/// at the end of the text or before a space.
proof fn lemma_formatted_prefix_last_punctuation(r: Seq<char>, k: int)
    requires
        1 <= k <= r.len(),
    ensures
        is_punctuation(formatted_prefix(r, k).last()) ==> (k == r.len() || r[k] == ' '),
    decreases k,
{
    lemma_formatted_prefix_last(r, k);
    let p = formatted_prefix(r, k - 1);
    let piece = formatted_piece(r, k - 1);
    assert(formatted_prefix(r, k) == p + piece);
    if piece.len() == 0 {
        lemma_formatted_prefix_last(r, k - 1);
        assert(p + piece =~= p);
    } else {
        assert((p + piece).last() == piece.last());
    }
}

/// In the pieces of the first `k` characters, every punctuation mark but a
/// last one is followed by a space.
proof fn lemma_formatted_prefix_punctuation(r: Seq<char>, k: int)
    requires
        0 <= k <= r.len(),
    ensures
        punctuation_spaced(formatted_prefix(r, k)),
    decreases k,
{
    if k > 0 {
        lemma_formatted_prefix_punctuation(r, k - 1);
        let p = formatted_prefix(r, k - 1);
        let piece = formatted_piece(r, k - 1);
        let q = p + piece;
        assert(formatted_prefix(r, k) == q);
        if k > 1 {
            lemma_formatted_prefix_last_punctuation(r, k - 1);
        }
        assert forall|i: int| 0 <= i < q.len() - 1 implies is_punctuation(#[trigger] q[i]) ==> q[i + 1] == ' ' by {
            if i + 1 < p.len() {
                assert(q[i] == p[i] && q[i + 1] == p[i + 1]);
            } else if i + 1 == p.len() {
                assert(q[i] == p.last());
                assert(q[i + 1] == piece[0]);
            } else {
                assert(q[i] == piece[i - p.len()]);
                assert(q[i + 1] == piece[i + 1 - p.len()]);
            }
        }
    }
}

/// A clean text is left as it is by cleaning, piece by piece.
proof fn lemma_formatted_prefix_clean(q: Seq<char>, k: int)
    requires
        0 <= k <= q.len(),
        no_double_space(q),
        punctuation_spaced(q),
    ensures
        formatted_prefix(q, k) == q.take(k),
    decreases k,
{
    if k == 0 {
        assert(q.take(0) =~= Seq::<char>::empty());
    } else {
        lemma_formatted_prefix_clean(q, k - 1);
        let i = k - 1;
        if i > 0 {
            assert(!(q[i - 1] == ' ' && q[i] == ' '));
        }
        if i + 1 < q.len() {
            assert(is_punctuation(q[i]) ==> q[i + 1] == ' ');
        }
        assert(formatted_piece(q, i) =~= seq![q[i]]);
        assert(q.take(k) =~= q.take(k - 1).push(q[i]));
    }
}

/// A cleaned text has no line break and no two spaces in a row, every
/// punctuation mark in it but a last one is followed by a space, it keeps
/// every character of the text that is not a blank, in order, and cleaning
/// it again changes nothing.
pub proof fn law_formatted_text_is_clean(s: Seq<char>)
    ensures
        !formatted_text(s).contains('\n'),
        no_double_space(formatted_text(s)),
        punctuation_spaced(formatted_text(s)),
        without_blanks(formatted_text(s)) == without_blanks(s),
        formatted_text(formatted_text(s)) == formatted_text(s),
{
    let r = without_newlines(s);
    let f = formatted_text(s);
    lemma_formatted_prefix_no_double_space(r, r.len() as int);
    lemma_formatted_prefix_no_newline(r, r.len() as int);
    lemma_formatted_prefix_punctuation(r, r.len() as int);
    lemma_formatted_prefix_blanks(r, r.len() as int);
    assert(r.take(r.len() as int) =~= r);
    lemma_without_blanks_newlines(s);
    assert forall|i: int| 0 <= i < f.len() implies f[i] != '\n' by {
        if f[i] == '\n' {
            assert(f.contains('\n'));
        }
    }
    assert(without_newlines(f) =~= f);
    lemma_formatted_prefix_clean(f, f.len() as int);
    assert(f.take(f.len() as int) =~= f);
}

/// The pieces of a text without newlines hold no newline.
proof fn lemma_formatted_prefix_no_newline(r: Seq<char>, k: int)
    requires
        0 <= k <= r.len(),
        forall|i: int| 0 <= i < r.len() ==> r[i] != '\n',
    ensures
        !formatted_prefix(r, k).contains('\n'),
    decreases k,
{
    if k > 0 {
        lemma_formatted_prefix_no_newline(r, k - 1);
        let p = formatted_prefix(r, k - 1);
        let piece = formatted_piece(r, k - 1);
        assert(formatted_prefix(r, k) == p + piece);
        assert forall|i: int| 0 <= i < (p + piece).len() implies (p + piece)[i] != '\n' by {
            if i < p.len() {
                assert((p + piece)[i] == p[i]);
            } else {
                assert((p + piece)[i] == piece[i - p.len()]);
            }
        }
    }
}

fn is_punctuation_exec(c: char) -> (r: bool)
    ensures
        r == is_punctuation(c),
{
    c == '.' || c == ',' || c == '!' || c == '?' || c == ':' || c == ';'
}

/// Cleans a text read from a file, as `formatted_text` states.
pub fn format_text(input: &str) -> (r: String)
    ensures
        r@ == formatted_text(input@),
{
    let raw = chars_of(input);
    let mut chars: Vec<char> = Vec::new();
    for i in 0..raw.len()
        invariant
            raw@ == input@,
            chars@ == without_newlines(raw@).take(i as int),
    {
        let c = raw[i];
        chars.push(if c == '\n' {
            ' '
        } else {
            c
        });
        assert(without_newlines(raw@).take(i + 1) =~= without_newlines(raw@).take(i as int).push(
            if c == '\n' {
                ' '
            } else {
                c
            },
        ));
    }
    assert(without_newlines(raw@).take(raw.len() as int) =~= without_newlines(raw@));
    let ghost rs = chars@;
    let mut result: Vec<char> = Vec::new();
    let n = chars.len();
    let mut i: usize = 0;
    while i < n
        invariant
            rs == chars@,
            n == rs.len(),
            i <= n,
            result@ == formatted_prefix(rs, i as int),
        decreases n - i,
    {
        let c = chars[i];
        if c == ' ' && i > 0 && chars[i - 1] == ' ' {
        } else if is_punctuation_exec(c) && i + 1 < n && chars[i + 1] != ' ' {
            result.push(c);
            result.push(' ');
        } else {
            result.push(c);
        }
        assert(result@ =~= formatted_prefix(rs, i as int) + formatted_piece(rs, i as int));
        i = i + 1;
    }
    string_of(&result)
}

} // verus!
