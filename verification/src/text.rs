use vstd::prelude::*;
use crate::text_generator::{TextGenerator, in_word_list, word_views, drawn_words};
use crate::action::Action;
use crate::strings::chars_of;
use crate::words::{words_of, count_words_chars};
use crate::text_source::{extended_text, extension_computable, div_ceil, extend_chars};

verus! {

/// How far a character of the text has been typed.
#[derive(Copy, Clone, Debug, PartialEq, Eq, Structural)]
pub enum CharacterState {
    NotTyped,
    Typed,
    Incorrect,
    Selected,
}

/// A character of the text and how far it has been typed.
#[derive(Copy, Clone, Debug, PartialEq, Eq, Structural)]
pub struct TypeChar {
    pub char: char,
    pub state: CharacterState,
}

/// The space that is typed between two words, not typed yet.
pub open spec fn spec_space() -> TypeChar {
    TypeChar { char: ' ', state: CharacterState::NotTyped }
}

pub open spec fn with_state(c: TypeChar, s: CharacterState) -> TypeChar {
    TypeChar { char: c.char, state: s }
}

impl TypeChar {
    pub fn incorrect(&mut self) -> (r: Self)
        ensures
            *final(self) == with_state(*old(self), CharacterState::Incorrect),
            r == *final(self),
    {
        self.state = CharacterState::Incorrect;
        *self
    }

    pub fn typed(&mut self) -> (r: Self)
        ensures
            *final(self) == with_state(*old(self), CharacterState::Typed),
            r == *final(self),
    {
        self.state = CharacterState::Typed;
        *self
    }

    pub fn not_typed(&mut self) -> (r: Self)
        ensures
            *final(self) == with_state(*old(self), CharacterState::NotTyped),
            r == *final(self),
    {
        self.state = CharacterState::NotTyped;
        *self
    }

    pub fn selected(&mut self) -> (r: Self)
        ensures
            *final(self) == with_state(*old(self), CharacterState::Selected),
            r == *final(self),
    {
        self.state = CharacterState::Selected;
        *self
    }

    /// The character that closes a text while it is cut into lines.
    pub fn guard() -> (r: TypeChar)
        ensures
            r == spec_space(),
    {
        TypeChar::space()
    }

    pub fn space() -> (r: TypeChar)
        ensures
            r == spec_space(),
    {
        TypeChar { char: ' ', state: CharacterState::NotTyped }
    }

    pub fn is_space(&self) -> (r: bool)
        ensures
            r == (self.char == ' '),
    {
        self.char == ' '
    }

    pub fn is_typed(&self) -> (r: bool)
        ensures
            r == (self.state == CharacterState::Typed),
    {
        matches!(self.state, CharacterState::Typed)
    }

    pub fn is_incorrect(&self) -> (r: bool)
        ensures
            r == (self.state == CharacterState::Incorrect),
    {
        matches!(self.state, CharacterState::Incorrect)
    }

    pub fn is_not_typed(&self) -> (r: bool)
        ensures
            r == (self.state == CharacterState::NotTyped || self.state == CharacterState::Selected),
    {
        matches!(self.state, CharacterState::NotTyped) || matches!(self.state, CharacterState::Selected)
    }

    pub fn is_cursor(&self) -> (r: bool)
        ensures
            r == (self.state == CharacterState::Selected),
    {
        matches!(self.state, CharacterState::Selected)
    }
}

/// One displayed line of the text.
#[derive(Clone, Debug)]
pub struct TypeLine {
    pub line: Vec<TypeChar>,
}

impl TypeLine {
    pub fn new(line: Vec<TypeChar>) -> (r: TypeLine)
        ensures
            r.line@ == line@,
    {
        TypeLine { line }
    }
}

/// The characters held by each line.
pub open spec fn line_views(lines: Seq<TypeLine>) -> Seq<Seq<TypeChar>> {
    lines.map_values(|l: TypeLine| l.line@)
}

/// All lines one after the other.
pub open spec fn flatten(lines: Seq<Seq<TypeChar>>) -> Seq<TypeChar>
    decreases lines.len(),
{
    if lines.len() == 0 {
        Seq::empty()
    } else {
        flatten(lines.drop_last()) + lines.last()
    }
}

/// The number of characters on the lines before line `n`.
pub open spec fn prefix_len(lines: Seq<Seq<TypeChar>>, n: int) -> int {
    flatten(lines.take(n)).len() as int
}

pub proof fn lemma_flatten_concat(a: Seq<Seq<TypeChar>>, b: Seq<Seq<TypeChar>>)
    ensures
        flatten(a + b) == flatten(a) + flatten(b),
    decreases b.len(),
{
    if b.len() == 0 {
        assert(a + b =~= a);
        assert(flatten(a) + flatten(b) =~= flatten(a));
    } else {
        lemma_flatten_concat(a, b.drop_last());
        assert((a + b).drop_last() =~= a + b.drop_last());
        assert(flatten(a) + flatten(b.drop_last()) + b.last() =~= flatten(a) + (flatten(
            b.drop_last(),
        ) + b.last()));
    }
}

/// Where line `n` lies in the flattened text.
pub proof fn lemma_flatten_split(lines: Seq<Seq<TypeChar>>, n: int)
    requires
        0 <= n < lines.len(),
    ensures
        flatten(lines) == flatten(lines.take(n)) + lines[n] + flatten(lines.skip(n + 1)),
        prefix_len(lines, n + 1) == prefix_len(lines, n) + lines[n].len(),
        prefix_len(lines, n) + lines[n].len() <= flatten(lines).len(),
{
    assert(lines =~= lines.take(n + 1) + lines.skip(n + 1));
    lemma_flatten_concat(lines.take(n + 1), lines.skip(n + 1));
    assert(lines.take(n + 1).drop_last() =~= lines.take(n));
}

pub proof fn lemma_flatten_index(lines: Seq<Seq<TypeChar>>, n: int, p: int)
    requires
        0 <= n < lines.len(),
        0 <= p < lines[n].len(),
    ensures
        prefix_len(lines, n) + p < flatten(lines).len(),
        flatten(lines)[prefix_len(lines, n) + p] == lines[n][p],
{
    lemma_flatten_split(lines, n);
}

/// Changing one character of a line changes that character of the text.
pub proof fn lemma_flatten_update(lines: Seq<Seq<TypeChar>>, n: int, p: int, c: TypeChar)
    requires
        0 <= n < lines.len(),
        0 <= p < lines[n].len(),
    ensures
        flatten(lines.update(n, lines[n].update(p, c))) == flatten(lines).update(
            prefix_len(lines, n) + p,
            c,
        ),
        prefix_len(lines.update(n, lines[n].update(p, c)), n) == prefix_len(lines, n),
{
    let l2 = lines.update(n, lines[n].update(p, c));
    lemma_flatten_split(lines, n);
    lemma_flatten_split(l2, n);
    assert(l2.take(n) =~= lines.take(n));
    assert(l2.skip(n + 1) =~= lines.skip(n + 1));
    assert(flatten(l2) =~= flatten(lines).update(prefix_len(lines, n) + p, c));
}

//------------------------------------------------------------------
//    Cutting a text into lines
//------------------------------------------------------------------

/// The state of the line cutting after reading part of the text: the lines
/// so far, the position counter and the word not placed yet.
pub struct WrapState {
    pub lines: Seq<Seq<TypeChar>>,
    pub position: int,
    pub word: Seq<TypeChar>,
}

/// Reads one character: a word is placed when the space after it is read,
/// at the end of the last line while the position counter is below
/// `width - 1`, on a new line otherwise.
pub open spec fn wrap_step(st: WrapState, c: TypeChar, width: int) -> WrapState {
    let word = st.word.push(c);
    if c.char == ' ' {
        if st.position < width - 1 {
            WrapState {
                lines: st.lines.update(st.lines.len() - 1, st.lines.last() + word),
                position: st.position + 1,
                word: Seq::empty(),
            }
        } else {
            WrapState { lines: st.lines.push(word), position: word.len() as int, word: Seq::empty() }
        }
    } else {
        WrapState { lines: st.lines, position: st.position + 1, word }
    }
}

pub open spec fn wrap_fold(s: Seq<TypeChar>, width: int) -> WrapState
    decreases s.len(),
{
    if s.len() == 0 {
        WrapState { lines: seq![Seq::empty()], position: 0, word: Seq::empty() }
    } else {
        wrap_step(wrap_fold(s.drop_last(), width), s.last(), width)
    }
}

/// The lines of a text cut for a given width: the text is read with one more
/// space at its end, which is taken off the last line afterwards.
pub open spec fn wrapped_lines(s: Seq<TypeChar>, width: int) -> Seq<Seq<TypeChar>> {
    let st = wrap_fold(s.push(spec_space()), width);
    st.lines.update(st.lines.len() - 1, st.lines.last().drop_last())
}

/// Whether the position counter (a `u16`) never passes its maximum while the
/// text is cut.
pub open spec fn wrap_fits(s: Seq<TypeChar>, width: int) -> bool {
    forall|k: int|
        0 <= k <= s.len() + 1 ==> #[trigger] wrap_fold(s.push(spec_space()).take(k), width).position
            <= u16::MAX
}

pub proof fn lemma_wrap_fold_shape(s: Seq<TypeChar>, width: int)
    ensures
        wrap_fold(s, width).lines.len() >= 1,
        flatten(wrap_fold(s, width).lines) + wrap_fold(s, width).word == s,
        wrap_fold(s, width).position >= 0,
    decreases s.len(),
{
    if s.len() > 0 {
        lemma_wrap_fold_shape(s.drop_last(), width);
        let st = wrap_fold(s.drop_last(), width);
        let c = s.last();
        let word = st.word.push(c);
        let n = st.lines.len() - 1;
        lemma_flatten_split(st.lines, n);
        assert(st.lines.skip(n + 1) =~= Seq::<Seq<TypeChar>>::empty());
        assert(flatten(st.lines) == flatten(st.lines.take(n)) + st.lines[n]);
        assert(s =~= s.drop_last().push(c));
        assert(flatten(st.lines) + st.word.push(c) =~= (flatten(st.lines) + st.word).push(c));
        assert(flatten(st.lines) + st.word.push(c) == s);
        if c.char == ' ' {
            if st.position < width - 1 {
                let l2 = st.lines.update(n, st.lines.last() + word);
                lemma_flatten_split(l2, n);
                assert(l2.take(n) =~= st.lines.take(n));
                assert(l2.skip(n + 1) =~= Seq::<Seq<TypeChar>>::empty());
                assert(flatten(l2) =~= flatten(st.lines.take(n)) + (st.lines[n] + word));
                assert(flatten(l2) + Seq::<TypeChar>::empty() =~= flatten(st.lines) + st.word.push(c));
            } else {
                assert(st.lines.push(word).drop_last() =~= st.lines);
                assert(flatten(st.lines.push(word)) + Seq::<TypeChar>::empty() =~= flatten(st.lines) + st.word.push(c));
            }
        } else {
            assert(flatten(st.lines) + word =~= (flatten(st.lines) + st.word).push(c));
        }
        assert(s =~= s.drop_last().push(c));
    } else {
        let l: Seq<Seq<TypeChar>> = seq![Seq::empty()];
        assert(l.drop_last() =~= Seq::<Seq<TypeChar>>::empty());
        assert(l.last() =~= Seq::<TypeChar>::empty());
        assert(flatten(Seq::<Seq<TypeChar>>::empty()) =~= Seq::<TypeChar>::empty());
        assert(flatten(l) =~= Seq::<TypeChar>::empty());
        assert(s =~= Seq::<TypeChar>::empty());
    }
}

/// After reading a space, no word is pending and the last line ends with it.
pub proof fn lemma_wrap_fold_after_space(s: Seq<TypeChar>, width: int)
    requires
        s.len() > 0,
        s.last().char == ' ',
    ensures
        wrap_fold(s, width).word.len() == 0,
        wrap_fold(s, width).lines.last().len() >= 1,
        wrap_fold(s, width).lines.last().last() == s.last(),
{
    lemma_wrap_fold_shape(s.drop_last(), width);
}

/// Cutting a text into lines keeps its characters, in order.
pub proof fn lemma_wrapped_lines_flatten(s: Seq<TypeChar>, width: int)
    ensures
        flatten(wrapped_lines(s, width)) == s,
        wrapped_lines(s, width).len() >= 1,
{
    let t = s.push(spec_space());
    lemma_wrap_fold_shape(t, width);
    lemma_wrap_fold_shape(t.drop_last(), width);
    let pre = wrap_fold(t.drop_last(), width);
    let st = wrap_fold(t, width);
    assert(t.last() == spec_space());
    // the last step reads a space, so the word is placed and the last line ends with it
    assert(st.word.len() == 0);
    assert(st.lines.last().len() > 0 && st.lines.last().last() == spec_space());
    let n = st.lines.len() - 1;
    let l2 = st.lines.update(n, st.lines.last().drop_last());
    lemma_flatten_split(st.lines, n);
    lemma_flatten_split(l2, n);
    assert(l2.take(n) =~= st.lines.take(n));
    assert(st.lines.skip(n + 1) =~= Seq::<Seq<TypeChar>>::empty());
    assert(l2.skip(n + 1) =~= Seq::<Seq<TypeChar>>::empty());
    assert(flatten(st.lines) + st.word =~= flatten(st.lines));
    assert(t.drop_last() =~= s);
    assert(flatten(l2) =~= flatten(st.lines).drop_last());
}

/// No space stands in `l` before its last character: `l` holds at most one
/// word (with the space after it).
pub open spec fn single_word(l: Seq<TypeChar>) -> bool {
    forall|j: int| 0 <= j < l.len() - 1 ==> (#[trigger] l[j]).char != ' '
}

/// What holds of every line while the text is read: lines after the first are
/// words with their spaces, every line ends with a space, and a line longer
/// than `width - 1` holds a single word.
pub open spec fn wrap_state_shape(st: WrapState, width: int) -> bool {
    &&& st.lines.len() >= 1
    &&& st.position == st.lines.last().len() + st.word.len()
    &&& forall|j: int| 0 <= j < st.word.len() ==> (#[trigger] st.word[j]).char != ' '
    &&& forall|i: int|
        0 < i < st.lines.len() ==> (#[trigger] st.lines[i]).len() >= 1
    &&& forall|i: int|
        0 <= i < st.lines.len() ==> (#[trigger] st.lines[i]).len() == 0
            || st.lines[i].last().char == ' '
    &&& forall|i: int|
        0 <= i < st.lines.len() ==> (#[trigger] st.lines[i]).len() <= width - 1
            || single_word(st.lines[i])
}

pub proof fn lemma_wrap_fold_state_shape(s: Seq<TypeChar>, width: int)
    ensures
        wrap_state_shape(wrap_fold(s, width), width),
    decreases s.len(),
{
    if s.len() > 0 {
        lemma_wrap_fold_state_shape(s.drop_last(), width);
        let st = wrap_fold(s.drop_last(), width);
        let c = s.last();
        let word = st.word.push(c);
        let n = st.lines.len() - 1;
        let st2 = wrap_fold(s, width);
        assert(st2 == wrap_step(st, c, width));
        if c.char == ' ' {
            if st.position < width - 1 {
                let l = st.lines.last() + word;
                assert(st2.lines == st.lines.update(n, l));
                assert(l.last() == c);
                assert(l.len() <= width - 1);
                assert forall|i: int| 0 <= i < st2.lines.len() implies (#[trigger] st2.lines[i]).len()
                    <= width - 1 || single_word(st2.lines[i]) by {
                    if i != n {
                        assert(st2.lines[i] == st.lines[i]);
                    }
                }
            } else {
                assert(st2.lines == st.lines.push(word));
                assert(single_word(word)) by {
                    assert forall|j: int| 0 <= j < word.len() - 1 implies (#[trigger] word[j]).char
                        != ' ' by {
                        assert(word[j] == st.word[j]);
                    }
                }
                assert forall|i: int| 0 <= i < st2.lines.len() implies (#[trigger] st2.lines[i]).len()
                    <= width - 1 || single_word(st2.lines[i]) by {
                    if i < st.lines.len() {
                        assert(st2.lines[i] == st.lines[i]);
                    }
                }
            }
        } else {
            assert(st2.lines == st.lines);
            assert forall|j: int| 0 <= j < st2.word.len() implies (#[trigger] st2.word[j]).char
                != ' ' by {
                if j < st.word.len() {
                    assert(st2.word[j] == st.word[j]);
                }
            }
        }
    }
}

/// Lines are cut between words: every line but the last ends with the space
/// after a word (only the first line may be left empty), and a line longer
/// than `width - 1` holds a single word that does not fit on a shorter line.
pub proof fn law_lines_break_between_words(s: Seq<TypeChar>, width: int)
    ensures
        forall|i: int|
            0 <= i < wrapped_lines(s, width).len() - 1 ==> {
                ||| i == 0 && (#[trigger] wrapped_lines(s, width)[i]).len() == 0
                ||| wrapped_lines(s, width)[i].len() >= 1 && wrapped_lines(s, width)[i].last().char
                    == ' '
            },
        forall|i: int|
            0 <= i < wrapped_lines(s, width).len() ==> (#[trigger] wrapped_lines(
                s,
                width,
            )[i]).len() <= width - 1 || single_word(wrapped_lines(s, width)[i]),
{
    let t = s.push(spec_space());
    lemma_wrap_fold_state_shape(t, width);
    lemma_wrap_fold_after_space(t, width);
    let st = wrap_fold(t, width);
    let n = st.lines.len() - 1;
    let ls = wrapped_lines(s, width);
    assert(ls == st.lines.update(n, st.lines.last().drop_last()));
    assert forall|i: int| 0 <= i < ls.len() implies (#[trigger] ls[i]).len() <= width - 1
        || single_word(ls[i]) by {
        if i == n {
            let l = st.lines[n];
            if !(l.len() <= width - 1) {
                assert forall|j: int| 0 <= j < ls[i].len() - 1 implies (#[trigger] ls[i][j]).char
                    != ' ' by {
                    assert(ls[i][j] == l[j]);
                }
            }
        }
    }
}

/// `b` is `a` with characters added at the end of its last line and lines
/// added after it.
pub open spec fn lines_extend(a: Seq<Seq<TypeChar>>, b: Seq<Seq<TypeChar>>) -> bool {
    &&& 1 <= a.len() <= b.len()
    &&& forall|j: int| 0 <= j < a.len() - 1 ==> #[trigger] b[j] == a[j]
    &&& a.last().len() <= b[a.len() - 1].len()
    &&& b[a.len() - 1].take(a.last().len() as int) == a.last()
}

pub proof fn lemma_lines_extend_trans(
    a: Seq<Seq<TypeChar>>,
    b: Seq<Seq<TypeChar>>,
    c: Seq<Seq<TypeChar>>,
)
    requires
        lines_extend(a, b),
        lines_extend(b, c),
    ensures
        lines_extend(a, c),
{
    let k = a.len() - 1;
    if k < b.len() - 1 {
        assert(c[k] == b[k]);
    } else {
        assert(c[k].take(a.last().len() as int) =~= c[k].take(b.last().len() as int).take(
            a.last().len() as int,
        ));
    }
}

pub proof fn lemma_wrap_step_extends(st: WrapState, c: TypeChar, width: int)
    requires
        st.lines.len() >= 1,
    ensures
        lines_extend(st.lines, wrap_step(st, c, width).lines),
{
    let n = st.lines.len() - 1;
    let word = st.word.push(c);
    if c.char == ' ' && st.position < width - 1 {
        assert((st.lines.last() + word).take(st.lines.last().len() as int) =~= st.lines.last());
    } else if c.char == ' ' {
        assert(st.lines.push(word)[n].take(st.lines.last().len() as int) =~= st.lines.last());
    } else {
        assert(st.lines[n].take(st.lines.last().len() as int) =~= st.lines.last());
    }
}

/// Reading more characters never changes what is already placed on lines.
pub proof fn lemma_wrap_fold_extends(a: Seq<TypeChar>, b: Seq<TypeChar>, width: int)
    ensures
        lines_extend(wrap_fold(a, width).lines, wrap_fold(a + b, width).lines),
    decreases b.len(),
{
    lemma_wrap_fold_shape(a, width);
    if b.len() == 0 {
        assert(a + b =~= a);
        let l = wrap_fold(a, width).lines;
        assert(l[l.len() - 1].take(l.last().len() as int) =~= l.last());
    } else {
        lemma_wrap_fold_extends(a, b.drop_last(), width);
        assert((a + b).drop_last() =~= a + b.drop_last());
        assert((a + b).last() == b.last());
        lemma_wrap_fold_shape(a + b.drop_last(), width);
        lemma_wrap_step_extends(wrap_fold(a + b.drop_last(), width), b.last(), width);
        lemma_lines_extend_trans(
            wrap_fold(a, width).lines,
            wrap_fold(a + b.drop_last(), width).lines,
            wrap_fold(a + b, width).lines,
        );
    }
}

/// Adding a space and more characters after a text keeps its lines, except
/// that its last line may get more characters at its end.
pub proof fn lemma_wrapped_lines_extend(s: Seq<TypeChar>, t: Seq<TypeChar>, width: int)
    ensures
        lines_extend(
            wrapped_lines(s, width),
            wrapped_lines(s.push(spec_space()) + t, width),
        ),
{
    let a = s.push(spec_space());
    let b = t.push(spec_space());
    assert((s.push(spec_space()) + t).push(spec_space()) =~= a + b);
    lemma_wrap_fold_extends(a, b, width);
    lemma_wrapped_lines_flatten(s, width);
    let f = wrap_fold(a, width).lines;
    let g = wrap_fold(a + b, width).lines;
    let l = wrapped_lines(s, width);
    let l2 = wrapped_lines(s.push(spec_space()) + t, width);
    // the last line of `f` ends with the space read last
    lemma_wrap_fold_shape(a.drop_last(), width);
    assert(a.drop_last() =~= s);
    assert(a.last() == spec_space());
    assert(f.last().len() >= 1);
    let k = f.len() - 1;
    assert forall|j: int| 0 <= j < l.len() - 1 implies #[trigger] l2[j] == l[j] by {
        assert(g[j] == f[j]);
    }
    if k < g.len() - 1 {
        assert(l2[k] == g[k]);
        assert(l2[k].take(l.last().len() as int) =~= g[k].take(f.last().len() as int).take(
            l.last().len() as int,
        ));
    } else {
        assert(l2[k] == g[k].drop_last());
        assert(l2[k].take(l.last().len() as int) =~= g[k].take(f.last().len() as int).take(
            l.last().len() as int,
        ));
    }
}

/// Lines that extend others have the same lines before the last one.
pub proof fn lemma_lines_extend_prefix(a: Seq<Seq<TypeChar>>, b: Seq<Seq<TypeChar>>, n: int)
    requires
        lines_extend(a, b),
        0 <= n < a.len(),
    ensures
        prefix_len(b, n) == prefix_len(a, n),
        a[n].len() <= b[n].len(),
{
    assert(b.take(n) =~= a.take(n));
}

fn append_typechars(dst: &mut Vec<TypeChar>, src: &mut Vec<TypeChar>)
    ensures
        final(dst)@ == old(dst)@ + old(src)@,
        final(src)@.len() == 0,
{
    dst.append(src);
}

/// One step of the line cutting on the executable state.
fn wrap_push(
    lines: &mut Vec<TypeLine>,
    position: &mut u16,
    current_word: &mut Vec<TypeChar>,
    tchar: TypeChar,
    width_max: u16,
)
    requires
        width_max >= 1,
        old(lines)@.len() >= 1,
        wrap_step(
            WrapState { lines: line_views(old(lines)@), position: *old(position) as int, word: old(current_word)@ },
            tchar,
            width_max as int,
        ).position <= u16::MAX,
    ensures
        ({
            let st = wrap_step(
                WrapState { lines: line_views(old(lines)@), position: *old(position) as int, word: old(current_word)@ },
                tchar,
                width_max as int,
            );
            &&& line_views(final(lines)@) == st.lines
            &&& *final(position) as int == st.position
            &&& final(current_word)@ == st.word
        }),
{
    let ghost pre = WrapState { lines: line_views(lines@), position: *position as int, word: current_word@ };
    current_word.push(tchar);
    if tchar.char == ' ' {
        if *position < width_max - 1 {
            let last = lines.len() - 1;
            append_typechars(&mut lines[last].line, current_word);
            assert(line_views(lines@) =~= pre.lines.update(
                pre.lines.len() - 1,
                pre.lines.last() + pre.word.push(tchar),
            ));
            *position = *position + 1;
        } else {
            *position = current_word.len() as u16;
            let mut w: Vec<TypeChar> = Vec::new();
            std::mem::swap(&mut w, current_word);
            assert(line_views(lines@.push(TypeLine { line: w })) =~= line_views(lines@).push(w@));
            lines.push(TypeLine { line: w });
        }
    } else {
        *position = *position + 1;
    }
}

/// Cuts a text into lines for a given width, as `wrapped_lines` states.
pub fn get_lines(typechar_text: Vec<TypeChar>, width_max: u16) -> (r: Vec<TypeLine>)
    requires
        width_max >= 1,
        wrap_fits(typechar_text@, width_max as int),
    ensures
        line_views(r@) == wrapped_lines(typechar_text@, width_max as int),
        flatten(line_views(r@)) == typechar_text@,
{
    let ghost s = typechar_text@.push(spec_space());
    let mut lines: Vec<TypeLine> = Vec::new();
    lines.push(TypeLine { line: Vec::new() });
    let mut position: u16 = 0;
    let mut current_word: Vec<TypeChar> = Vec::new();
    let n = typechar_text.len();
    let mut i: usize = 0;
    assert(line_views(lines@) =~= seq![Seq::<TypeChar>::empty()]);
    assert(s.take(0) =~= Seq::<TypeChar>::empty());
    while i < n
        invariant
            n == typechar_text@.len(),
            s == typechar_text@.push(spec_space()),
            i <= n,
            width_max >= 1,
            wrap_fits(typechar_text@, width_max as int),
            line_views(lines@) == wrap_fold(s.take(i as int), width_max as int).lines,
            position as int == wrap_fold(s.take(i as int), width_max as int).position,
            current_word@ == wrap_fold(s.take(i as int), width_max as int).word,
        decreases n - i,
    {
        let tchar = typechar_text[i];
        proof {
            assert(s.take(i + 1).drop_last() =~= s.take(i as int));
            assert(s.take(i + 1).last() == tchar);
            lemma_wrap_fold_shape(s.take(i as int), width_max as int);
            assert(wrap_fold(s.take(i + 1), width_max as int).position <= u16::MAX);
        }
        wrap_push(&mut lines, &mut position, &mut current_word, tchar, width_max);
        i = i + 1;
    }
    let guard = TypeChar::guard();
    proof {
        assert(s.take(n + 1).drop_last() =~= s.take(n as int));
        assert(s.take(n + 1).last() == guard);
        lemma_wrap_fold_shape(s.take(n as int), width_max as int);
        assert(wrap_fold(s.take(n + 1), width_max as int).position <= u16::MAX);
    }
    wrap_push(&mut lines, &mut position, &mut current_word, guard, width_max);
    assert(s.take((n + 1) as int) =~= s);
    proof {
        lemma_wrap_fold_shape(s, width_max as int);
        lemma_wrapped_lines_flatten(typechar_text@, width_max as int);
    }
    let last = lines.len() - 1;
    let ghost before = line_views(lines@);
    lines[last].line.pop();
    assert(line_views(lines@) =~= before.update(before.len() - 1, before.last().drop_last()));
    lines
}

} // verus!

verus! {

//------------------------------------------------------------------
//    Facts about the characters' states
//------------------------------------------------------------------

pub open spec fn typed_or_incorrect(s: CharacterState) -> bool {
    s == CharacterState::Typed || s == CharacterState::Incorrect
}

pub open spec fn untyped(s: CharacterState) -> bool {
    s == CharacterState::NotTyped || s == CharacterState::Selected
}

/// The number of characters marked incorrect.
pub open spec fn count_incorrect(s: Seq<TypeChar>) -> nat
    decreases s.len(),
{
    if s.len() == 0 {
        0
    } else {
        count_incorrect(s.drop_last()) + (if s.last().state == CharacterState::Incorrect {
            1nat
        } else {
            0nat
        })
    }
}

pub open spec fn incorrect_bit(c: TypeChar) -> int {
    if c.state == CharacterState::Incorrect {
        1
    } else {
        0
    }
}

pub proof fn lemma_count_incorrect_update(s: Seq<TypeChar>, i: int, c: TypeChar)
    requires
        0 <= i < s.len(),
    ensures
        count_incorrect(s.update(i, c)) == count_incorrect(s) - incorrect_bit(s[i]) + incorrect_bit(c),
    decreases s.len(),
{
    let s2 = s.update(i, c);
    if i == s.len() - 1 {
        assert(s2.drop_last() =~= s.drop_last());
    } else {
        lemma_count_incorrect_update(s.drop_last(), i, c);
        assert(s2.drop_last() =~= s.drop_last().update(i, c));
    }
}

pub proof fn lemma_count_incorrect_le_len(s: Seq<TypeChar>)
    ensures
        count_incorrect(s) <= s.len(),
    decreases s.len(),
{
    if s.len() > 0 {
        lemma_count_incorrect_le_len(s.drop_last());
    }
}

pub proof fn lemma_count_incorrect_pos(s: Seq<TypeChar>, i: int)
    requires
        0 <= i < s.len(),
        s[i].state == CharacterState::Incorrect,
    ensures
        count_incorrect(s) >= 1,
    decreases s.len(),
{
    if i < s.len() - 1 {
        lemma_count_incorrect_pos(s.drop_last(), i);
    }
}

pub proof fn lemma_count_incorrect_concat(a: Seq<TypeChar>, b: Seq<TypeChar>)
    ensures
        count_incorrect(a + b) == count_incorrect(a) + count_incorrect(b),
    decreases b.len(),
{
    if b.len() == 0 {
        assert(a + b =~= a);
    } else {
        lemma_count_incorrect_concat(a, b.drop_last());
        assert((a + b).drop_last() =~= a + b.drop_last());
    }
}

pub proof fn lemma_count_incorrect_none(s: Seq<TypeChar>)
    requires
        forall|i: int| 0 <= i < s.len() ==> (#[trigger] s[i]).state != CharacterState::Incorrect,
    ensures
        count_incorrect(s) == 0,
    decreases s.len(),
{
    if s.len() > 0 {
        lemma_count_incorrect_none(s.drop_last());
    }
}

//------------------------------------------------------------------
//    Cutting into lines looks only at the characters, not their states
//------------------------------------------------------------------

pub open spec fn same_chars(a: Seq<TypeChar>, b: Seq<TypeChar>) -> bool {
    &&& a.len() == b.len()
    &&& forall|i: int| 0 <= i < a.len() ==> (#[trigger] a[i]).char == b[i].char
}

pub open spec fn same_layout(a: Seq<Seq<TypeChar>>, b: Seq<Seq<TypeChar>>) -> bool {
    &&& a.len() == b.len()
    &&& forall|j: int| 0 <= j < a.len() ==> same_chars(#[trigger] a[j], b[j])
}

pub proof fn lemma_wrap_fold_same_layout(s1: Seq<TypeChar>, s2: Seq<TypeChar>, width: int)
    requires
        same_chars(s1, s2),
    ensures
        same_layout(wrap_fold(s1, width).lines, wrap_fold(s2, width).lines),
        wrap_fold(s1, width).position == wrap_fold(s2, width).position,
        same_chars(wrap_fold(s1, width).word, wrap_fold(s2, width).word),
    decreases s1.len(),
{
    if s1.len() == 0 {
    } else {
        assert(same_chars(s1.drop_last(), s2.drop_last()));
        lemma_wrap_fold_same_layout(s1.drop_last(), s2.drop_last(), width);
        lemma_wrap_fold_shape(s1.drop_last(), width);
        lemma_wrap_fold_shape(s2.drop_last(), width);
        let a = wrap_fold(s1.drop_last(), width);
        let b = wrap_fold(s2.drop_last(), width);
        let ca = s1.last();
        let cb = s2.last();
        assert(ca.char == cb.char);
        let wa = a.word.push(ca);
        let wb = b.word.push(cb);
        assert(same_chars(wa, wb));
        let n = a.lines.len() - 1;
        assert(same_chars(a.lines[n], b.lines[n]));
        assert(same_chars(a.lines.last() + wa, b.lines.last() + wb));
    }
}

pub proof fn lemma_same_layout_flatten_eq(a: Seq<Seq<TypeChar>>, b: Seq<Seq<TypeChar>>)
    requires
        same_layout(a, b),
        flatten(a) == flatten(b),
    ensures
        a == b,
    decreases a.len(),
{
    if a.len() > 0 {
        let fa = flatten(a.drop_last());
        let fb = flatten(b.drop_last());
        assert(same_chars(a.last(), b.last()));
        assert(flatten(a).len() == fa.len() + a.last().len());
        assert(flatten(b).len() == fb.len() + b.last().len());
        assert(fa.len() == fb.len());
        assert(fa =~= flatten(a).take(fa.len() as int));
        assert(fb =~= flatten(b).take(fb.len() as int));
        assert(a.last() =~= flatten(a).skip(fa.len() as int));
        assert(b.last() =~= flatten(b).skip(fb.len() as int));
        assert(same_layout(a.drop_last(), b.drop_last()));
        lemma_same_layout_flatten_eq(a.drop_last(), b.drop_last());
        assert(a =~= a.drop_last().push(a.last()));
        assert(b =~= b.drop_last().push(b.last()));
        assert(a =~= b);
    } else {
        assert(a =~= b);
    }
}

/// Changing the state of one character of wrapped lines gives the lines of
/// the changed text.
pub proof fn lemma_wrapped_update(s: Seq<TypeChar>, width: int, n: int, p: int, c: TypeChar)
    requires
        0 <= n < wrapped_lines(s, width).len(),
        0 <= p < wrapped_lines(s, width)[n].len(),
        c.char == wrapped_lines(s, width)[n][p].char,
    ensures
        ({
            let l = wrapped_lines(s, width);
            l.update(n, l[n].update(p, c)) == wrapped_lines(
                s.update(prefix_len(l, n) + p, c),
                width,
            )
        }),
{
    let l = wrapped_lines(s, width);
    let i = prefix_len(l, n) + p;
    lemma_wrapped_lines_flatten(s, width);
    lemma_flatten_index(l, n, p);
    let s2 = s.update(i, c);
    let l2 = l.update(n, l[n].update(p, c));
    lemma_flatten_update(l, n, p, c);
    lemma_wrapped_lines_flatten(s2, width);
    let t1 = s.push(spec_space());
    let t2 = s2.push(spec_space());
    assert(same_chars(t1, t2));
    lemma_wrap_fold_same_layout(t1, t2, width);
    lemma_wrap_fold_shape(t1, width);
    let w2 = wrapped_lines(s2, width);
    let f1 = wrap_fold(t1, width).lines;
    let f2 = wrap_fold(t2, width).lines;
    assert(same_chars(f1.last(), f2.last()));
    assert(t1.drop_last() =~= s);
    lemma_wrap_fold_after_space(t1, width);
    assert(same_layout(l, w2)) by {
        assert forall|j: int| 0 <= j < l.len() implies same_chars(#[trigger] l[j], w2[j]) by {
            assert(same_chars(f1[j], f2[j]));
            if j == l.len() - 1 {
                assert(same_chars(f1[j].drop_last(), f2[j].drop_last()));
            }
        }
    }
    assert(same_layout(l2, w2)) by {
        assert forall|j: int| 0 <= j < l2.len() implies same_chars(#[trigger] l2[j], w2[j]) by {
            assert(same_chars(l[j], w2[j]));
        }
    }
    lemma_same_layout_flatten_eq(l2, w2);
}

} // verus!

verus! {

//------------------------------------------------------------------
//    The text being typed
//------------------------------------------------------------------

/// Whether the text has a fixed number of words (a race) or grows while it
/// is typed.
#[derive(Clone, Copy, Debug, PartialEq, Eq, Structural)]
pub enum KindLength {
    Unlimited,
    Finished(usize),
}

#[derive(Clone, Copy, Debug, PartialEq, Eq, Structural)]
pub enum TextWidgetState {
    Loading,
    ErrorLoading,
    InProgress,
    DoneWithMistakes,
    Done,
}

/// What loading the text gave: a text read from a file or a generator over
/// a word list; `None` when loading failed.
pub enum TextSource {
    StaticText(Option<String>),
    Generator(Option<TextGenerator>),
}

impl TextSource {
    /// Whether loading failed.
    pub open spec fn failed(&self) -> bool {
        match self {
            TextSource::StaticText(t) => t is None,
            TextSource::Generator(g) => g is None,
        }
    }

    /// Whether loading failed (no text or no word list came).
    pub fn as_fail(&self) -> (r: bool)
        ensures
            r == self.failed(),
    {
        match self {
            TextSource::StaticText(t) => t.is_none(),
            TextSource::Generator(g) => g.is_none(),
        }
    }
}

/// The text of a game, cut into lines, with the typing cursor.
pub struct TextWidget {
    /// What loading gave; `None` while it is still loading.
    pub async_text_source: Option<TextSource>,
    pub kind_length: KindLength,
    pub current_width: u16,
    pub lines: Option<Vec<TypeLine>>,
    pub pos_in_line: usize,
    pub n_line: usize,
    pub total_position: usize,
    pub total_size: usize,
    pub mistakes_counter: usize,
    pub state: TextWidgetState,
}

impl TextWidget {
    pub open spec fn line_seqs(&self) -> Seq<Seq<TypeChar>> {
        line_views(self.lines.unwrap()@)
    }

    /// The whole text, line after line.
    pub open spec fn chars(&self) -> Seq<TypeChar> {
        flatten(self.line_seqs())
    }

    pub open spec fn finished_kind(&self) -> bool {
        self.kind_length is Finished
    }

    /// The cursor names a character of the text.
    pub open spec fn cursor_valid(&self) -> bool {
        &&& self.lines is Some
        &&& self.n_line < self.line_seqs().len()
        &&& self.pos_in_line < self.line_seqs()[self.n_line as int].len()
    }

    /// The lines, the line-and-column cursor and the position in the text
    /// agree; the lines are the text cut for the current width once one is
    /// known.
    pub open spec fn layout_ok(&self) -> bool {
        let ls = self.line_seqs();
        &&& ls.len() >= 1
        &&& self.chars().len() <= usize::MAX
        &&& self.n_line < ls.len()
        &&& self.pos_in_line <= ls[self.n_line as int].len()
        &&& self.total_position == prefix_len(ls, self.n_line as int) + self.pos_in_line
        &&& self.current_width >= 1 ==> ls == wrapped_lines(self.chars(), self.current_width as int)
    }

    /// Everything before the cursor has been typed, nothing after it; the
    /// mistakes counter counts the characters marked incorrect (at least).
    pub open spec fn progress_ok(&self) -> bool {
        progress_inv(
            self.chars(),
            self.total_position as int,
            self.state,
            self.mistakes_counter as int,
            self.finished_kind(),
        )
    }

    /// The invariant of the text widget.
    pub open spec fn wf(&self) -> bool {
        &&& (self.lines is Some <==> !(self.state is Loading || self.state is ErrorLoading))
        &&& self.lines is Some ==> self.layout_ok() && self.progress_ok()
        &&& self.lines is None ==> {
            &&& self.n_line == 0
            &&& self.pos_in_line == 0
            &&& self.total_position == 0
            &&& self.mistakes_counter == 0
            &&& self.current_width == 0
        }
        &&& state_rules(self.state, self.mistakes_counter as int, self.finished_kind())
    }

    /// A widget waiting for its text, for `number_words` words (a text that
    /// grows while it is typed when `None`).
    pub fn new(number_words: Option<usize>) -> (r: TextWidget)
        ensures
            r.wf(),
            r.lines is None,
            r.async_text_source is None,
            r.state == TextWidgetState::Loading,
            r.kind_length == (match number_words {
                Some(n) => KindLength::Finished(n),
                None => KindLength::Unlimited,
            }),
            r.total_position == 0 && r.mistakes_counter == 0 && r.total_size == 0,
            r.current_width == 0,
    {
        TextWidget {
            async_text_source: None,
            current_width: 0,
            lines: None,
            pos_in_line: 0,
            n_line: 0,
            total_position: 0,
            total_size: 0,
            state: TextWidgetState::Loading,
            mistakes_counter: 0,
            kind_length: match number_words {
                Some(n) => KindLength::Finished(n),
                None => KindLength::Unlimited,
            },
        }
    }

    /// Whether loading has answered (with a text, or with a failure).
    pub fn is_available(&self) -> (r: bool)
        ensures
            r == self.async_text_source is Some,
    {
        self.async_text_source.is_some()
    }

    /// Sets the state of the character under the cursor.
    fn set_cursor_state(&mut self, st: CharacterState)
        requires
            old(self).cursor_valid(),
        ensures
            final(self).lines is Some,
            final(self).line_seqs() == old(self).line_seqs().update(
                old(self).n_line as int,
                old(self).line_seqs()[old(self).n_line as int].update(
                    old(self).pos_in_line as int,
                    with_state(
                        old(self).line_seqs()[old(self).n_line as int][old(self).pos_in_line as int],
                        st,
                    ),
                ),
            ),
            final(self).n_line == old(self).n_line,
            final(self).pos_in_line == old(self).pos_in_line,
            final(self).total_position == old(self).total_position,
            final(self).total_size == old(self).total_size,
            final(self).mistakes_counter == old(self).mistakes_counter,
            final(self).state == old(self).state,
            final(self).kind_length == old(self).kind_length,
            final(self).current_width == old(self).current_width,
            final(self).async_text_source == old(self).async_text_source,
    {
        let n = self.n_line;
        let p = self.pos_in_line;
        let ghost old_lines = self.lines.unwrap()@;
        match &mut self.lines {
            Some(lines) => {
                let old_line = lines[n].line[p];
                lines[n].line.set(p, TypeChar { char: old_line.char, state: st });
                proof {
                    assert(line_views(lines@) =~= line_views(old_lines).update(
                        n as int,
                        line_views(old_lines)[n as int].update(p as int, with_state(old_line, st)),
                    ));
                }
            },
            None => {},
        }
    }

    pub fn make_incorrect(&mut self)
        requires
            old(self).lines is Some ==> old(self).cursor_valid(),
        ensures
            old(self).lines is None ==> *final(self) == *old(self),
            old(self).lines is Some ==> final(self).cursor_changed(old(self), CharacterState::Incorrect),
    {
        if self.lines.is_some() {
            self.set_cursor_state(CharacterState::Incorrect);
        }
    }

    pub fn make_typed(&mut self)
        requires
            old(self).lines is Some ==> old(self).cursor_valid(),
        ensures
            old(self).lines is None ==> *final(self) == *old(self),
            old(self).lines is Some ==> final(self).cursor_changed(old(self), CharacterState::Typed),
    {
        if self.lines.is_some() {
            self.set_cursor_state(CharacterState::Typed);
        }
    }

    pub fn make_not_typed(&mut self)
        requires
            old(self).lines is Some ==> old(self).cursor_valid(),
        ensures
            old(self).lines is None ==> *final(self) == *old(self),
            old(self).lines is Some ==> final(self).cursor_changed(old(self), CharacterState::NotTyped),
    {
        if self.lines.is_some() {
            self.set_cursor_state(CharacterState::NotTyped);
        }
    }

    pub fn make_selected(&mut self)
        requires
            old(self).lines is Some ==> old(self).cursor_valid(),
        ensures
            old(self).lines is None ==> *final(self) == *old(self),
            old(self).lines is Some ==> final(self).cursor_changed(old(self), CharacterState::Selected),
    {
        if self.lines.is_some() {
            self.set_cursor_state(CharacterState::Selected);
        }
    }

    /// `self` is `prev` with the state of the character under the cursor set
    /// to `st`.
    pub open spec fn cursor_changed(&self, prev: &TextWidget, st: CharacterState) -> bool {
        &&& self.lines is Some
        &&& self.line_seqs() == prev.line_seqs().update(
            prev.n_line as int,
            prev.line_seqs()[prev.n_line as int].update(
                prev.pos_in_line as int,
                with_state(prev.line_seqs()[prev.n_line as int][prev.pos_in_line as int], st),
            ),
        )
        &&& self.n_line == prev.n_line
        &&& self.pos_in_line == prev.pos_in_line
        &&& self.total_position == prev.total_position
        &&& self.total_size == prev.total_size
        &&& self.mistakes_counter == prev.mistakes_counter
        &&& self.state == prev.state
        &&& self.kind_length == prev.kind_length
        &&& self.current_width == prev.current_width
        &&& self.async_text_source == prev.async_text_source
    }

    /// Whether the character under the cursor is `key`.
    pub fn is_current_char(&self, key: char) -> (r: bool)
        requires
            self.cursor_valid(),
        ensures
            r == (self.line_seqs()[self.n_line as int][self.pos_in_line as int].char == key),
    {
        match &self.lines {
            Some(lines) => lines[self.n_line].line[self.pos_in_line].char == key,
            None => false,
        }
    }

    fn cursor_char(&self) -> (r: TypeChar)
        requires
            self.cursor_valid(),
        ensures
            r == self.line_seqs()[self.n_line as int][self.pos_in_line as int],
    {
        match &self.lines {
            Some(lines) => lines[self.n_line].line[self.pos_in_line],
            None => TypeChar::space(),
        }
    }

    pub fn is_cursor_correct(&self) -> (r: bool)
        requires
            self.cursor_valid(),
        ensures
            r == (self.line_seqs()[self.n_line as int][self.pos_in_line as int].state
                == CharacterState::Typed),
    {
        matches!(self.cursor_char().state, CharacterState::Typed)
    }

    pub fn is_cursor_incorrect(&self) -> (r: bool)
        requires
            self.cursor_valid(),
        ensures
            r == (self.line_seqs()[self.n_line as int][self.pos_in_line as int].state
                == CharacterState::Incorrect),
    {
        matches!(self.cursor_char().state, CharacterState::Incorrect)
    }
}

/// Only a race can be over; it is over without mistakes exactly when the
/// counter is zero.
pub open spec fn state_rules(state: TextWidgetState, counter: int, finished: bool) -> bool {
    &&& (state is Done || state is DoneWithMistakes) ==> finished
    &&& state is Done ==> counter == 0
    &&& state is DoneWithMistakes ==> counter > 0
}

/// How far the text `s` has been typed with the cursor at `t`.
pub open spec fn progress_inv(
    s: Seq<TypeChar>,
    t: int,
    state: TextWidgetState,
    counter: int,
    finished: bool,
) -> bool {
    &&& 0 <= t <= s.len()
    &&& s.len() > 0 ==> t < s.len()
    &&& forall|i: int| 0 <= i < t ==> typed_or_incorrect(#[trigger] s[i].state)
    &&& forall|i: int| t < i < s.len() ==> (#[trigger] s[i]).state == CharacterState::NotTyped
    &&& (state is InProgress && finished && t < s.len()) ==> untyped(s[t].state)
    &&& (state is Done || state is DoneWithMistakes) ==> {
        &&& s.len() > 0
        &&& t == s.len() - 1
        &&& typed_or_incorrect(s[t].state)
    }
    &&& counter >= count_incorrect(s)
    &&& finished ==> counter == count_incorrect(s)
}

/// The key typed: a newline counts as a space.
pub open spec fn effective_key(key: char) -> char {
    if key == '\n' {
        ' '
    } else {
        key
    }
}

/// What typing `key` does to the text `s` with the cursor at `t`: the
/// character becomes typed or incorrect; in a game in progress the cursor
/// moves on to the next character, which is shown as selected, and a race
/// ends after its last character.
pub open spec fn key_effect(
    s: Seq<TypeChar>,
    t: int,
    counter: int,
    state: TextWidgetState,
    finished: bool,
    key: char,
) -> (Seq<TypeChar>, int, int, TextWidgetState) {
    let c = s[t];
    let ok = c.char == effective_key(key);
    let s1 = s.update(
        t,
        with_state(
            c,
            if ok {
                CharacterState::Typed
            } else {
                CharacterState::Incorrect
            },
        ),
    );
    match state {
        TextWidgetState::InProgress => {
            let counter1 = if ok {
                counter
            } else {
                counter + 1
            };
            if t + 1 < s.len() {
                (s1.update(t + 1, with_state(s[t + 1], CharacterState::Selected)), t + 1, counter1, state)
            } else {
                let state1 = if !finished {
                    TextWidgetState::InProgress
                } else if counter1 > 0 {
                    TextWidgetState::DoneWithMistakes
                } else {
                    TextWidgetState::Done
                };
                (s1, t, counter1, state1)
            }
        },
        TextWidgetState::DoneWithMistakes => {
            let counter1 = if ok {
                if c.state == CharacterState::Incorrect {
                    counter - 1
                } else {
                    counter
                }
            } else {
                if c.state == CharacterState::Typed {
                    counter + 1
                } else {
                    counter
                }
            };
            (
                s1,
                t,
                counter1,
                if counter1 > 0 {
                    TextWidgetState::DoneWithMistakes
                } else {
                    TextWidgetState::Done
                },
            )
        },
        _ => (s, t, counter, state),
    }
}

/// What backspace does: the character under the cursor is no longer typed,
/// the cursor moves back one character in a game in progress, and the
/// character it lands on is shown as selected, not typed; the counter loses
/// the incorrect marks that are taken off.
pub open spec fn backspace_effect(
    s: Seq<TypeChar>,
    t: int,
    counter: int,
    state: TextWidgetState,
) -> (Seq<TypeChar>, int, int, TextWidgetState) {
    let c0 = s[t];
    let counter1 = counter - incorrect_bit(c0);
    let s1 = s.update(t, with_state(c0, CharacterState::NotTyped));
    let t2 = if state is InProgress && t > 0 {
        t - 1
    } else {
        t
    };
    let c1 = s1[t2];
    let counter2 = counter1 - incorrect_bit(c1);
    (s1.update(t2, with_state(c1, CharacterState::Selected)), t2, counter2, TextWidgetState::InProgress)
}

pub proof fn lemma_key_effect_inv(
    s: Seq<TypeChar>,
    t: int,
    counter: int,
    state: TextWidgetState,
    finished: bool,
    key: char,
)
    requires
        progress_inv(s, t, state, counter, finished),
        state_rules(state, counter, finished),
        0 <= t < s.len(),
    ensures
        ({
            let (s2, t2, c2, st2) = key_effect(s, t, counter, state, finished, key);
            &&& progress_inv(s2, t2, st2, c2, finished)
            &&& state_rules(st2, c2, finished)
            &&& s2.len() == s.len()
            &&& same_chars(s, s2)
        }),
{
    let c = s[t];
    let ok = c.char == effective_key(key);
    let newst = if ok {
        CharacterState::Typed
    } else {
        CharacterState::Incorrect
    };
    let s1 = s.update(t, with_state(c, newst));
    lemma_count_incorrect_update(s, t, with_state(c, newst));
    if state is InProgress && t + 1 < s.len() {
        lemma_count_incorrect_update(s1, t + 1, with_state(s[t + 1], CharacterState::Selected));
    }
    if state is DoneWithMistakes && ok && c.state == CharacterState::Incorrect {
        lemma_count_incorrect_pos(s, t);
    }
    let (s2, t2, c2, st2) = key_effect(s, t, counter, state, finished, key);
    assert(same_chars(s, s2));
}

pub proof fn lemma_backspace_effect_inv(
    s: Seq<TypeChar>,
    t: int,
    counter: int,
    state: TextWidgetState,
    finished: bool,
)
    requires
        progress_inv(s, t, state, counter, finished),
        state_rules(state, counter, finished),
        0 <= t < s.len(),
        state is InProgress || state is DoneWithMistakes || state is Done,
    ensures
        ({
            let (s2, t2, c2, st2) = backspace_effect(s, t, counter, state);
            &&& progress_inv(s2, t2, st2, c2, finished)
            &&& state_rules(st2, c2, finished)
            &&& c2 >= 0
            &&& counter - incorrect_bit(s[t]) >= 0
            &&& same_chars(s, s2)
        }),
{
    let c0 = s[t];
    let s1 = s.update(t, with_state(c0, CharacterState::NotTyped));
    lemma_count_incorrect_update(s, t, with_state(c0, CharacterState::NotTyped));
    if c0.state == CharacterState::Incorrect {
        lemma_count_incorrect_pos(s, t);
    }
    let t2 = if state is InProgress && t > 0 {
        t - 1
    } else {
        t
    };
    let c1 = s1[t2];
    lemma_count_incorrect_update(s1, t2, with_state(c1, CharacterState::Selected));
    if c1.state == CharacterState::Incorrect {
        lemma_count_incorrect_pos(s1, t2);
    }
    let (s2, t2b, c2, st2) = backspace_effect(s, t, counter, state);
    assert(same_chars(s, s2));
}

/// Under a consistent layout, the cursor's character is the text's character
/// at the cursor's position.
pub proof fn lemma_cursor_char(w: &TextWidget)
    requires
        w.layout_ok(),
        w.cursor_valid(),
    ensures
        w.total_position < w.chars().len(),
        w.chars()[w.total_position as int] == w.line_seqs()[w.n_line as int][w.pos_in_line as int],
{
    lemma_flatten_index(w.line_seqs(), w.n_line as int, w.pos_in_line as int);
}

/// Changing the state of the cursor's character keeps the layout consistent
/// and changes that character of the text.
pub proof fn lemma_cursor_change_layout(prev: &TextWidget, w: &TextWidget, st: CharacterState)
    requires
        prev.layout_ok(),
        prev.cursor_valid(),
        w.cursor_changed(prev, st),
    ensures
        w.layout_ok(),
        w.cursor_valid(),
        w.chars() == prev.chars().update(
            prev.total_position as int,
            with_state(prev.chars()[prev.total_position as int], st),
        ),
{
    let ls = prev.line_seqs();
    let n = prev.n_line as int;
    let p = prev.pos_in_line as int;
    let c = with_state(ls[n][p], st);
    lemma_cursor_char(prev);
    lemma_flatten_update(ls, n, p, c);
    if prev.current_width >= 1 {
        lemma_wrapped_update(prev.chars(), prev.current_width as int, n, p, c);
    }
}

} // verus!

verus! {

/// A word that has just been finished was typed without a mistake: going back
/// from the cursor at `t`, every character down to the space before the word
/// (or the start of the text) is typed correctly.
pub open spec fn word_back_ok(s: Seq<TypeChar>, t: int, i: int) -> bool
    decreases t - i,
{
    if !(0 <= i <= t) {
        true
    } else {
        let c = s[t - i];
        if c.state != CharacterState::Typed {
            false
        } else if (c.char == ' ' && i != 0) || t - i == 0 {
            true
        } else {
            word_back_ok(s, t, i + 1)
        }
    }
}

pub proof fn lemma_prefix_len_all(ls: Seq<Seq<TypeChar>>)
    ensures
        prefix_len(ls, ls.len() as int) == flatten(ls).len(),
{
    assert(ls.take(ls.len() as int) =~= ls);
}

impl TextWidget {
    /// The character `n` places before the cursor, or the first character
    /// of the text when the cursor is fewer than `n` places from the start
    /// (that character is then read on the first line, which must hold it).
    pub fn previous_typechar(&self, n: usize) -> (r: TypeChar)
        requires
            self.lines is Some,
            self.layout_ok(),
            self.cursor_valid(),
            n > self.total_position ==> self.line_seqs()[0].len() > 0,
        ensures
            r == self.chars()[if n <= self.total_position {
                self.total_position - n
            } else {
                0
            }],
    {
        let ghost ls = self.line_seqs();
        let ghost t = self.total_position as int;
        proof {
            lemma_cursor_char(self);
        }
        match &self.lines {
            Some(lines) => {
                if n <= self.pos_in_line {
                    proof {
                        lemma_flatten_index(ls, self.n_line as int, self.pos_in_line - n);
                    }
                    lines[self.n_line].line[self.pos_in_line - n]
                } else if self.n_line == 0 {
                    proof {
                        assert(ls.take(0) =~= Seq::<Seq<TypeChar>>::empty());
                        lemma_flatten_index(ls, 0, 0);
                    }
                    lines[0].line[0]
                } else {
                    let mut k: usize = n - self.pos_in_line;
                    let mut n_line: usize = self.n_line - 1;
                    loop
                        invariant
                            ls == line_views(lines@),
                            ls == self.line_seqs(),
                            n_line < self.n_line < ls.len(),
                            k >= 1,
                            t == self.total_position,
                            t - n == prefix_len(ls, n_line + 1) - k,
                            t < flatten(ls).len(),
                            n > t ==> ls[0].len() > 0,
                        decreases n_line,
                    {
                        let len = lines[n_line].line.len();
                        proof {
                            lemma_flatten_split(ls, n_line as int);
                        }
                        if k > len && n_line > 0 {
                            k = k - len;
                            n_line = n_line - 1;
                        } else if k > len {
                            proof {
                                assert(ls.take(0) =~= Seq::<Seq<TypeChar>>::empty());
                                assert(n > t);
                                lemma_flatten_index(ls, 0, 0);
                            }
                            return lines[0].line[0];
                        } else {
                            proof {
                                lemma_flatten_index(ls, n_line as int, len - k);
                            }
                            return lines[n_line].line[len - k];
                        }
                    }
                }
            },
            None => TypeChar::space(),
        }
    }

    /// Whether the word that ends at the cursor was typed without mistake.
    pub fn is_word_correctly_type(&self) -> (r: bool)
        requires
            self.lines is Some,
            self.layout_ok(),
            self.cursor_valid(),
        ensures
            r == word_back_ok(self.chars(), self.total_position as int, 0),
    {
        let mut i: usize = 0;
        loop
            invariant
                self.lines is Some,
                self.layout_ok(),
                self.cursor_valid(),
                i <= self.total_position,
                word_back_ok(self.chars(), self.total_position as int, 0) == word_back_ok(
                    self.chars(),
                    self.total_position as int,
                    i as int,
                ),
            decreases self.total_position - i,
        {
            let type_char = self.previous_typechar(i);
            if !matches!(type_char.state, CharacterState::Typed) {
                return false;
            }
            if (type_char.char == ' ' && i != 0) || self.total_position - i == 0 {
                return true;
            }
            i = i + 1;
        }
    }
}

/// The component that handles the keys typed on the text.
pub struct TextWidgetComponent {
    pub widget: TextWidget,
}

impl TextWidgetComponent {
    /// When the cursor is at the end of its line and another line follows,
    /// that line is not empty (the cursor lands on a character).
    pub open spec fn advance_target_ok(&self) -> bool {
        let w = self.widget;
        let ls = w.line_seqs();
        (w.pos_in_line + 1 >= ls[w.n_line as int].len() && w.n_line + 1 < ls.len()) ==> ls[w.n_line
            + 1].len() > 0
    }

    /// When the cursor is at the start of its line in a game in progress and
    /// a line comes before, that line is not empty.
    pub open spec fn back_target_ok(&self) -> bool {
        let w = self.widget;
        let ls = w.line_seqs();
        (w.state is InProgress && w.pos_in_line == 0 && w.n_line > 0) ==> ls[w.n_line - 1].len() > 0
    }

    /// The same widget with only the cursor moved.
    pub open spec fn cursor_moved(&self, prev: &TextWidgetComponent) -> bool {
        &&& self.widget.lines == prev.widget.lines
        &&& self.widget.total_size == prev.widget.total_size
        &&& self.widget.mistakes_counter == prev.widget.mistakes_counter
        &&& self.widget.state == prev.widget.state
        &&& self.widget.kind_length == prev.widget.kind_length
        &&& self.widget.current_width == prev.widget.current_width
        &&& self.widget.async_text_source == prev.widget.async_text_source
    }

    /// Moves the cursor to the next character; `false` when it is on the
    /// last one.
    pub fn advance_cursor(&mut self) -> (r: bool)
        requires
            old(self).widget.lines is Some,
            old(self).widget.layout_ok(),
            old(self).widget.cursor_valid(),
            old(self).advance_target_ok(),
        ensures
            r == (old(self).widget.total_position + 1 < old(self).widget.chars().len()),
            final(self).cursor_moved(old(self)),
            final(self).widget.layout_ok(),
            final(self).widget.cursor_valid(),
            final(self).widget.total_position == (if r {
                old(self).widget.total_position + 1
            } else {
                old(self).widget.total_position as int
            }),
    {
        let ghost ls = self.widget.line_seqs();
        proof {
            lemma_cursor_char(&self.widget);
            lemma_flatten_split(ls, self.widget.n_line as int);
            lemma_prefix_len_all(ls);
        }
        let line_len = match &self.widget.lines {
            Some(lines) => lines[self.widget.n_line].line.len(),
            None => 0,
        };
        let n_lines = match &self.widget.lines {
            Some(lines) => lines.len(),
            None => 0,
        };
        if self.widget.pos_in_line + 1 < line_len {
            self.widget.pos_in_line = self.widget.pos_in_line + 1;
            self.widget.total_position = self.widget.total_position + 1;
            true
        } else if self.widget.n_line + 1 < n_lines {
            proof {
                lemma_flatten_split(ls, self.widget.n_line + 1);
            }
            self.widget.pos_in_line = 0;
            self.widget.n_line = self.widget.n_line + 1;
            self.widget.total_position = self.widget.total_position + 1;
            true
        } else {
            proof {
                assert(ls.take(self.widget.n_line + 1) =~= ls);
            }
            false
        }
    }

    /// Moves the cursor back one character in a game in progress.
    pub fn back_cursor(&mut self)
        requires
            old(self).widget.lines is Some,
            old(self).widget.layout_ok(),
            old(self).widget.cursor_valid(),
            old(self).back_target_ok(),
            old(self).widget.state is InProgress || old(self).widget.state is DoneWithMistakes
                || old(self).widget.state is Done,
        ensures
            final(self).cursor_moved(old(self)),
            final(self).widget.layout_ok(),
            final(self).widget.cursor_valid(),
            final(self).widget.total_position == (if old(self).widget.state is InProgress
                && old(self).widget.total_position > 0 {
                old(self).widget.total_position - 1
            } else {
                old(self).widget.total_position as int
            }),
    {
        let ghost ls = self.widget.line_seqs();
        proof {
            lemma_cursor_char(&self.widget);
            lemma_flatten_split(ls, self.widget.n_line as int);
        }
        match self.widget.state {
            TextWidgetState::InProgress => {
                if self.widget.pos_in_line >= 1 {
                    self.widget.pos_in_line = self.widget.pos_in_line - 1;
                    self.widget.total_position = self.widget.total_position - 1;
                } else if self.widget.n_line >= 1 {
                    let n_line = self.widget.n_line - 1;
                    proof {
                        lemma_flatten_split(ls, n_line as int);
                    }
                    let len = match &self.widget.lines {
                        Some(lines) => lines[n_line].line.len(),
                        None => 1,
                    };
                    self.widget.n_line = n_line;
                    self.widget.pos_in_line = len - 1;
                    self.widget.total_position = self.widget.total_position - 1;
                } else {
                    proof {
                        assert(ls.take(0) =~= Seq::<Seq<TypeChar>>::empty());
                    }
                }
            },
            _ => {},
        }
    }
}

} // verus!

verus! {

/// Changing the state of one character keeps the length of every line.
pub proof fn lemma_update_keeps_lengths(ls: Seq<Seq<TypeChar>>, n: int, p: int, c: TypeChar)
    requires
        0 <= n < ls.len(),
        0 <= p < ls[n].len(),
    ensures
        forall|j: int|
            0 <= j < ls.len() ==> (#[trigger] ls.update(n, ls[n].update(p, c))[j]).len() == ls[j].len(),
{
}

/// Whether typing `key` completes a word without a mistake: in a game in
/// progress, a space typed where a space is expected, after a word typed
/// correctly back to its start.
pub open spec fn word_done_by(w: TextWidget, key: char) -> bool {
    w.state is InProgress && {
        let s = w.chars();
        let t = w.total_position as int;
        &&& s[t].char == effective_key(key)
        &&& effective_key(key) == ' '
        &&& word_back_ok(s.update(t, with_state(s[t], CharacterState::Typed)), t, 0)
    }
}

impl TextWidgetComponent {
    /// A component waiting for its text.
    pub fn new(number_words: Option<usize>) -> (r: TextWidgetComponent)
        ensures
            r.widget.wf(),
            r.widget.lines is None,
            r.widget.async_text_source is None,
            r.widget.state == TextWidgetState::Loading,
            r.widget.kind_length == (match number_words {
                Some(n) => KindLength::Finished(n),
                None => KindLength::Unlimited,
            }),
    {
        TextWidgetComponent { widget: TextWidget::new(number_words) }
    }

    /// Whether the race is over.
    pub fn is_done(&self) -> (r: bool)
        ensures
            r == (self.widget.state is Done || self.widget.state is DoneWithMistakes),
    {
        matches!(self.widget.state, TextWidgetState::Done | TextWidgetState::DoneWithMistakes)
    }

    /// Whether the race is over without a mistake left.
    pub fn is_done_correctly(&self) -> (r: bool)
        ensures
            r == (self.widget.state is Done),
    {
        matches!(self.widget.state, TextWidgetState::Done)
    }

    /// Handles a typed key (a newline counts as a space), as `key_effect`
    /// states. Returns whether a word has just been completed without a
    /// mistake, which is when its words-per-minute time is recorded.
    pub fn key_pressed(&mut self, key: char) -> (r: bool)
        requires
            old(self).widget.wf(),
            (old(self).widget.state is InProgress || old(self).widget.state is DoneWithMistakes)
                ==> old(self).widget.cursor_valid(),
            old(self).widget.state is InProgress ==> old(self).advance_target_ok(),
            old(self).widget.state is InProgress ==> old(self).widget.mistakes_counter < usize::MAX,
        ensures
            final(self).widget.wf(),
            final(self).widget.kind_length == old(self).widget.kind_length,
            final(self).widget.current_width == old(self).widget.current_width,
            final(self).widget.total_size == old(self).widget.total_size,
            final(self).widget.async_text_source == old(self).widget.async_text_source,
            (old(self).widget.state is InProgress || old(self).widget.state is DoneWithMistakes) ==> {
                &&& (final(self).widget.chars(), final(self).widget.total_position as int,
                    final(self).widget.mistakes_counter as int, final(self).widget.state) == key_effect(
                    old(self).widget.chars(),
                    old(self).widget.total_position as int,
                    old(self).widget.mistakes_counter as int,
                    old(self).widget.state,
                    old(self).widget.finished_kind(),
                    key,
                )
                &&& final(self).widget.cursor_valid()
            },
            !(old(self).widget.state is InProgress || old(self).widget.state is DoneWithMistakes)
                ==> final(self).widget == old(self).widget,
            r == word_done_by(old(self).widget, key),
    {
        let key = if key == '\n' {
            ' '
        } else {
            key
        };
        let ghost w0 = self.widget;
        let ghost s = w0.chars();
        let ghost t = w0.total_position as int;
        match self.widget.state {
            TextWidgetState::InProgress => {
                proof {
                    lemma_cursor_char(&w0);
                    lemma_key_effect_inv(s, t, w0.mistakes_counter as int, w0.state, w0.finished_kind(), key);
                    lemma_update_keeps_lengths(
                        w0.line_seqs(),
                        w0.n_line as int,
                        w0.pos_in_line as int,
                        with_state(w0.line_seqs()[w0.n_line as int][w0.pos_in_line as int], CharacterState::Typed),
                    );
                    lemma_update_keeps_lengths(
                        w0.line_seqs(),
                        w0.n_line as int,
                        w0.pos_in_line as int,
                        with_state(w0.line_seqs()[w0.n_line as int][w0.pos_in_line as int], CharacterState::Incorrect),
                    );
                }
                let ok = self.widget.is_current_char(key);
                let mut word_done = false;
                if ok {
                    self.widget.make_typed();
                    proof {
                        lemma_cursor_change_layout(&w0, &self.widget, CharacterState::Typed);
                    }
                    if key == ' ' && self.widget.is_word_correctly_type() {
                        word_done = true;
                    }
                } else {
                    self.widget.make_incorrect();
                    proof {
                        lemma_cursor_change_layout(&w0, &self.widget, CharacterState::Incorrect);
                    }
                    if !self.is_done() {
                        self.widget.mistakes_counter = self.widget.mistakes_counter + 1;
                    }
                }
                let ghost w1 = self.widget;
                assert(self.advance_target_ok());
                if self.advance_cursor() {
                    let ghost w2 = self.widget;
                    proof {
                        lemma_cursor_char(&w2);
                    }
                    self.widget.make_selected();
                    proof {
                        lemma_cursor_change_layout(&w2, &self.widget, CharacterState::Selected);
                    }
                } else if matches!(self.widget.kind_length, KindLength::Finished(_)) {
                    self.widget.state = if self.widget.mistakes_counter > 0 {
                        TextWidgetState::DoneWithMistakes
                    } else {
                        TextWidgetState::Done
                    };
                }
                word_done
            },
            TextWidgetState::DoneWithMistakes => {
                proof {
                    lemma_cursor_char(&w0);
                    lemma_key_effect_inv(s, t, w0.mistakes_counter as int, w0.state, w0.finished_kind(), key);
                    if w0.line_seqs()[w0.n_line as int][w0.pos_in_line as int].state == CharacterState::Incorrect {
                        lemma_count_incorrect_pos(s, t);
                    }
                }
                if self.widget.is_current_char(key) {
                    if self.widget.is_cursor_incorrect() {
                        self.widget.mistakes_counter = self.widget.mistakes_counter - 1;
                    }
                    let ghost wm = self.widget;
                    self.widget.make_typed();
                    proof {
                        lemma_cursor_change_layout(&wm, &self.widget, CharacterState::Typed);
                    }
                } else {
                    if self.widget.is_cursor_correct() {
                        proof {
                            lemma_count_incorrect_update(s, t, with_state(s[t], CharacterState::Incorrect));
                            lemma_count_incorrect_le_len(s.update(t, with_state(s[t], CharacterState::Incorrect)));
                        }
                        self.widget.mistakes_counter = self.widget.mistakes_counter + 1;
                    }
                    let ghost wm = self.widget;
                    self.widget.make_incorrect();
                    proof {
                        lemma_cursor_change_layout(&wm, &self.widget, CharacterState::Incorrect);
                    }
                }
                self.widget.state = if self.widget.mistakes_counter > 0 {
                    TextWidgetState::DoneWithMistakes
                } else {
                    TextWidgetState::Done
                };
                false
            },
            _ => false,
        }
    }
}

} // verus!

verus! {

impl TextWidgetComponent {
    /// Handles backspace, as `backspace_effect` states; nothing happens
    /// before the text is there.
    pub fn backspace(&mut self)
        requires
            old(self).widget.wf(),
            old(self).widget.lines is Some ==> old(self).widget.cursor_valid()
                && old(self).back_target_ok(),
        ensures
            final(self).widget.wf(),
            final(self).widget.kind_length == old(self).widget.kind_length,
            final(self).widget.current_width == old(self).widget.current_width,
            final(self).widget.total_size == old(self).widget.total_size,
            final(self).widget.async_text_source == old(self).widget.async_text_source,
            old(self).widget.lines is None ==> final(self).widget == old(self).widget,
            old(self).widget.lines is Some ==> {
                &&& (final(self).widget.chars(), final(self).widget.total_position as int,
                    final(self).widget.mistakes_counter as int, final(self).widget.state)
                    == backspace_effect(
                    old(self).widget.chars(),
                    old(self).widget.total_position as int,
                    old(self).widget.mistakes_counter as int,
                    old(self).widget.state,
                )
                &&& final(self).widget.cursor_valid()
            },
    {
        if self.widget.lines.is_none() {
            return;
        }
        let ghost w0 = self.widget;
        let ghost s = w0.chars();
        let ghost t = w0.total_position as int;
        proof {
            lemma_cursor_char(&w0);
            lemma_backspace_effect_inv(s, t, w0.mistakes_counter as int, w0.state, w0.finished_kind());
        }
        if self.widget.is_cursor_incorrect() {
            self.widget.mistakes_counter = self.widget.mistakes_counter - 1;
        }
        let ghost wa = self.widget;
        proof {
            lemma_update_keeps_lengths(
                w0.line_seqs(),
                w0.n_line as int,
                w0.pos_in_line as int,
                with_state(w0.line_seqs()[w0.n_line as int][w0.pos_in_line as int], CharacterState::NotTyped),
            );
        }
        self.widget.make_not_typed();
        proof {
            lemma_cursor_change_layout(&wa, &self.widget, CharacterState::NotTyped);
        }
        let ghost s1 = self.widget.chars();
        self.back_cursor();
        let ghost wb = self.widget;
        proof {
            lemma_cursor_char(&wb);
            lemma_update_keeps_lengths(
                wb.line_seqs(),
                wb.n_line as int,
                wb.pos_in_line as int,
                with_state(wb.line_seqs()[wb.n_line as int][wb.pos_in_line as int], CharacterState::Selected),
            );
        }
        if self.widget.is_cursor_incorrect() {
            self.widget.mistakes_counter = self.widget.mistakes_counter - 1;
        }
        let ghost wc = self.widget;
        self.widget.make_selected();
        proof {
            lemma_cursor_change_layout(&wc, &self.widget, CharacterState::Selected);
        }
        if !matches!(self.widget.state, TextWidgetState::InProgress) {
            self.widget.state = TextWidgetState::InProgress;
        }
    }
}

} // verus!

verus! {

//------------------------------------------------------------------
//    Counting the words typed correctly
//------------------------------------------------------------------

/// The state of the word count while the lines are read.
pub struct WordCount {
    pub counter: int,
    pub is_correct: bool,
    pub stopped: bool,
}

/// Reads one character: a typed (or selected) space closes a word, which
/// counts when no character of it was incorrect; the count stops at the
/// first character not typed yet.
pub open spec fn count_char(st: WordCount, c: TypeChar) -> WordCount {
    if st.stopped {
        st
    } else if (c.state == CharacterState::Typed || c.state == CharacterState::Selected) && c.char
        == ' ' {
        WordCount {
            counter: st.counter + (if st.is_correct {
                1int
            } else {
                0int
            }),
            is_correct: true,
            stopped: false,
        }
    } else if c.state == CharacterState::Incorrect {
        WordCount { counter: st.counter, is_correct: false, stopped: false }
    } else if c.state == CharacterState::NotTyped || c.state == CharacterState::Selected {
        WordCount { counter: st.counter, is_correct: st.is_correct, stopped: true }
    } else {
        st
    }
}

pub open spec fn count_line(st: WordCount, line: Seq<TypeChar>) -> WordCount
    decreases line.len(),
{
    if line.len() == 0 {
        st
    } else {
        count_char(count_line(st, line.drop_last()), line.last())
    }
}

/// The word count over the lines; a word that is cut by the end of a line
/// starts afresh on the next one.
pub open spec fn count_lines(lines: Seq<Seq<TypeChar>>) -> WordCount
    decreases lines.len(),
{
    if lines.len() == 0 {
        WordCount { counter: 0, is_correct: true, stopped: false }
    } else {
        let st = count_line(count_lines(lines.drop_last()), lines.last());
        if st.stopped {
            st
        } else {
            WordCount { counter: st.counter, is_correct: true, stopped: false }
        }
    }
}

pub proof fn lemma_count_lines_bound(lines: Seq<Seq<TypeChar>>)
    ensures
        0 <= count_lines(lines).counter <= flatten(lines).len(),
    decreases lines.len(),
{
    if lines.len() > 0 {
        lemma_count_lines_bound(lines.drop_last());
        lemma_count_line_bound(count_lines(lines.drop_last()), lines.last());
    }
}

pub proof fn lemma_count_line_bound(st: WordCount, line: Seq<TypeChar>)
    ensures
        st.counter <= count_line(st, line).counter <= st.counter + line.len(),
    decreases line.len(),
{
    if line.len() > 0 {
        lemma_count_line_bound(st, line.drop_last());
    }
}

/// The word that ends before position `k` of a line (read back to the space
/// before it, that space included, or to the line start) holds no character
/// typed wrong.
pub open spec fn word_clean(l: Seq<TypeChar>, k: int) -> bool
    decreases k,
{
    if k <= 0 {
        true
    } else if l[k - 1].state == CharacterState::Incorrect {
        false
    } else if l[k - 1].char == ' ' {
        true
    } else {
        word_clean(l, k - 1)
    }
}

/// Position `j` of a line is a typed space that closes a word with no
/// character typed wrong.
pub open spec fn closes_clean_word(l: Seq<TypeChar>, j: int) -> bool {
    &&& (l[j].state == CharacterState::Typed || l[j].state == CharacterState::Selected)
    &&& l[j].char == ' '
    &&& word_clean(l, j)
}

/// How many of the first `k` positions of a line close a clean word.
pub open spec fn clean_closes_line(l: Seq<TypeChar>, k: int) -> int
    decreases k,
{
    if k <= 0 {
        0
    } else {
        clean_closes_line(l, k - 1) + (if closes_clean_word(l, k - 1) {
            1int
        } else {
            0int
        })
    }
}

/// How many typed spaces of the lines close a clean word.
pub open spec fn clean_closes(ls: Seq<Seq<TypeChar>>) -> int
    decreases ls.len(),
{
    if ls.len() == 0 {
        0
    } else {
        clean_closes(ls.drop_last()) + clean_closes_line(ls.last(), ls.last().len() as int)
    }
}

proof fn lemma_count_line_clean(st0: WordCount, l: Seq<TypeChar>, k: int)
    requires
        st0.stopped || st0.is_correct,
        0 <= k <= l.len(),
    ensures
        count_line(st0, l.take(k)).counter - st0.counter <= clean_closes_line(l, k),
        !count_line(st0, l.take(k)).stopped && count_line(st0, l.take(k)).is_correct
            ==> word_clean(l, k),
    decreases k,
{
    if k > 0 {
        lemma_count_line_clean(st0, l, k - 1);
        assert(l.take(k).drop_last() =~= l.take(k - 1));
        assert(l.take(k).last() == l[k - 1]);
    } else {
        assert(l.take(0) =~= Seq::<TypeChar>::empty());
    }
}

proof fn lemma_count_lines_ready(ls: Seq<Seq<TypeChar>>)
    ensures
        count_lines(ls).stopped || count_lines(ls).is_correct,
    decreases ls.len(),
{
}

/// A word with a character typed wrong is never counted: the words counted
/// as typed correctly are at most the typed spaces whose word (back to the
/// space before it, or the line start) holds no character marked incorrect.
pub proof fn law_words_with_mistakes_not_counted(ls: Seq<Seq<TypeChar>>)
    ensures
        count_lines(ls).counter <= clean_closes(ls),
    decreases ls.len(),
{
    if ls.len() > 0 {
        law_words_with_mistakes_not_counted(ls.drop_last());
        lemma_count_lines_ready(ls.drop_last());
        let l = ls.last();
        lemma_count_line_clean(count_lines(ls.drop_last()), l, l.len() as int);
        assert(l.take(l.len() as int) =~= l);
    }
}

/// A character where counting stops: one not typed yet, or the cursor on a
/// character other than a space.
pub open spec fn stops_count(c: TypeChar) -> bool {
    c.state == CharacterState::NotTyped || (c.state == CharacterState::Selected && c.char != ' ')
}

/// The first position from `j` on where counting stops in a line (its length
/// when there is none).
pub open spec fn stop_from(l: Seq<TypeChar>, j: int) -> int
    decreases l.len() - j,
{
    if j >= l.len() {
        l.len() as int
    } else if stops_count(l[j]) {
        j
    } else {
        stop_from(l, j + 1)
    }
}

/// No line holds a character where counting stops.
pub open spec fn all_typed(ls: Seq<Seq<TypeChar>>) -> bool {
    forall|i: int| 0 <= i < ls.len() ==> stop_from(#[trigger] ls[i], 0) == ls[i].len()
}

/// The words typed correctly: over the lines up to the first character where
/// counting stops, the typed spaces that close a word with no character typed
/// wrong.
pub open spec fn correct_words(ls: Seq<Seq<TypeChar>>) -> int
    decreases ls.len(),
{
    if ls.len() == 0 {
        0
    } else if !all_typed(ls.drop_last()) {
        correct_words(ls.drop_last())
    } else {
        correct_words(ls.drop_last()) + clean_closes_line(ls.last(), stop_from(ls.last(), 0))
    }
}

proof fn lemma_stop_from(l: Seq<TypeChar>, i: int)
    requires
        0 <= i <= l.len(),
    ensures
        i <= stop_from(l, i) <= l.len(),
        forall|j: int| i <= j < stop_from(l, i) ==> !stops_count(#[trigger] l[j]),
        stop_from(l, i) < l.len() ==> stops_count(l[stop_from(l, i)]),
    decreases l.len() - i,
{
    if i < l.len() && !stops_count(l[i]) {
        lemma_stop_from(l, i + 1);
    }
}

proof fn lemma_count_line_stopped(st: WordCount, l: Seq<TypeChar>)
    requires
        st.stopped,
    ensures
        count_line(st, l) == st,
    decreases l.len(),
{
    if l.len() > 0 {
        lemma_count_line_stopped(st, l.drop_last());
    }
}

proof fn lemma_count_line_exact(c: int, l: Seq<TypeChar>, k: int)
    requires
        0 <= k <= l.len(),
    ensures
        ({
            let st = count_line(WordCount { counter: c, is_correct: true, stopped: false }, l.take(k));
            let f = stop_from(l, 0);
            &&& k <= f ==> !st.stopped && st.is_correct == word_clean(l, k) && st.counter == c
                + clean_closes_line(l, k)
            &&& k > f ==> st.stopped && st.counter == c + clean_closes_line(l, f)
        }),
    decreases k,
{
    lemma_stop_from(l, 0);
    if k > 0 {
        lemma_count_line_exact(c, l, k - 1);
        assert(l.take(k).drop_last() =~= l.take(k - 1));
        assert(l.take(k).last() == l[k - 1]);
        if k - 1 < stop_from(l, 0) {
            assert(!stops_count(l[k - 1]));
        }
    } else {
        assert(l.take(0) =~= Seq::<TypeChar>::empty());
    }
}

/// The words counted as typed correctly are exactly the typed spaces, before
/// the first character not typed yet, that close a word with no character
/// marked incorrect.
pub proof fn law_correct_words_counted(ls: Seq<Seq<TypeChar>>)
    ensures
        count_lines(ls).counter == correct_words(ls),
        count_lines(ls).stopped == !all_typed(ls),
        !count_lines(ls).stopped ==> count_lines(ls).is_correct,
    decreases ls.len(),
{
    if ls.len() > 0 {
        let prev = ls.drop_last();
        let l = ls.last();
        law_correct_words_counted(prev);
        let st = count_lines(prev);
        if st.stopped {
            lemma_count_line_stopped(st, l);
            let i = choose|i: int| 0 <= i < prev.len() && stop_from(#[trigger] prev[i], 0) != prev[i].len();
            assert(ls[i] == prev[i]);
        } else {
            lemma_count_line_exact(st.counter, l, l.len() as int);
            lemma_stop_from(l, 0);
            assert(l.take(l.len() as int) =~= l);
            if stop_from(l, 0) == l.len() {
                assert forall|i: int| 0 <= i < ls.len() implies stop_from(#[trigger] ls[i], 0)
                    == ls[i].len() by {
                    if i < prev.len() {
                        assert(ls[i] == prev[i]);
                    }
                }
            } else {
                assert(ls[ls.len() - 1] == l);
            }
        }
    }
}

impl TextWidget {
    /// The number of words typed correctly, as `count_lines` states; zero
    /// before the text is there.
    pub fn get_n_words_correctly_typed(&self) -> (r: usize)
        requires
            self.lines is Some ==> self.chars().len() <= usize::MAX,
        ensures
            r == (if self.lines is None {
                0
            } else {
                count_lines(self.line_seqs()).counter
            }),
            self.lines is Some ==> r <= clean_closes(self.line_seqs()),
            self.lines is Some ==> r == correct_words(self.line_seqs()),
    {
        match &self.lines {
            None => 0,
            Some(lines) => {
                let ghost ls = line_views(lines@);
                proof {
                    law_words_with_mistakes_not_counted(ls);
                    law_correct_words_counted(ls);
                }
                let mut counter: usize = 0;
                let mut is_correct = true;
                let mut stopped = false;
                let mut i: usize = 0;
                proof {
                    lemma_count_lines_bound(ls);
                }
                while i < lines.len()
                    invariant
                        ls == line_views(lines@),
                        ls == self.line_seqs(),
                        flatten(ls).len() <= usize::MAX,
                        i <= lines.len(),
                        count_lines(ls.take(i as int)) == (WordCount {
                            counter: counter as int,
                            is_correct,
                            stopped,
                        }),
                        counter <= prefix_len(ls, i as int),
                    decreases lines.len() - i,
                {
                    let ghost st0 = WordCount { counter: counter as int, is_correct, stopped };
                    proof {
                        lemma_flatten_split(ls, i as int);
                    }
                    let line = &lines[i].line;
                    let mut j: usize = 0;
                    while j < line.len()
                        invariant
                            line@ == ls[i as int],
                            j <= line.len(),
                            count_line(st0, line@.take(j as int)) == (WordCount {
                                counter: counter as int,
                                is_correct,
                                stopped,
                            }),
                            counter <= st0.counter + j,
                            st0.counter + line.len() <= usize::MAX,
                        decreases line.len() - j,
                    {
                        let tchar = line[j];
                        assert(line@.take(j + 1).drop_last() =~= line@.take(j as int));
                        if !stopped {
                            if (matches!(tchar.state, CharacterState::Typed) || matches!(tchar.state, CharacterState::Selected))
                                && tchar.is_space() {
                                if is_correct {
                                    counter = counter + 1;
                                }
                                is_correct = true;
                            } else if matches!(tchar.state, CharacterState::Incorrect) {
                                is_correct = false;
                            } else if matches!(tchar.state, CharacterState::NotTyped) || matches!(tchar.state, CharacterState::Selected) {
                                stopped = true;
                            }
                        }
                        j = j + 1;
                    }
                    assert(line@.take(line.len() as int) =~= line@);
                    assert(ls.take(i + 1).drop_last() =~= ls.take(i as int));
                    if !stopped {
                        is_correct = true;
                    }
                    i = i + 1;
                }
                assert(ls.take(lines.len() as int) =~= ls);
                counter
            },
        }
    }
}

impl TextWidgetComponent {
    pub fn get_n_words_correctly_typed(&self) -> (r: usize)
        requires
            self.widget.wf(),
        ensures
            r == (if self.widget.lines is None {
                0
            } else {
                count_lines(self.widget.line_seqs()).counter
            }),
            self.widget.lines is Some ==> r <= clean_closes(self.widget.line_seqs()),
            self.widget.lines is Some ==> r == correct_words(self.widget.line_seqs()),
    {
        self.widget.get_n_words_correctly_typed()
    }
}

} // verus!

verus! {

//------------------------------------------------------------------
//    Building the lines
//------------------------------------------------------------------

/// A character not typed yet.
pub open spec fn fresh_char(c: char) -> TypeChar {
    TypeChar { char: c, state: CharacterState::NotTyped }
}

/// The characters of a text, none typed yet.
pub open spec fn untyped_text(s: Seq<char>) -> Seq<TypeChar> {
    Seq::new(s.len(), |i: int| fresh_char(s[i]))
}

pub fn to_typechars(v: &Vec<char>) -> (r: Vec<TypeChar>)
    ensures
        r@ == untyped_text(v@),
{
    let mut r: Vec<TypeChar> = Vec::new();
    assert(untyped_text(v@).len() == v@.len());
    for i in 0..v.len()
        invariant
            r@ == untyped_text(v@).take(i as int),
    {
        r.push(TypeChar { char: v[i], state: CharacterState::NotTyped });
        assert(untyped_text(v@)[i as int] == fresh_char(v@[i as int]));
        assert(untyped_text(v@).take(i + 1) =~= untyped_text(v@).take(i as int).push(
            TypeChar { char: v@[i as int], state: CharacterState::NotTyped },
        ));
    }
    assert(untyped_text(v@).len() == v@.len());
    assert(untyped_text(v@).take(v.len() as int) =~= untyped_text(v@));
    r
}

/// The text of a game made of a text file: the text repeated, joined by
/// spaces, until it holds `number_words` words.
pub open spec fn new_typechar_text(text: Seq<char>, number_words: int) -> Seq<TypeChar> {
    untyped_text(extended_text(text, number_words, words_of(text).len() as int).0)
}

pub proof fn lemma_u16_extension_computable(n: int, total: int)
    requires
        0 <= n <= u16::MAX,
        total >= 0,
        total < n ==> total > 0,
    ensures
        extension_computable(n, total),
{
    if total < n {
        let it = div_ceil(n, total);
        assert(total * it + it <= usize::MAX) by (nonlinear_arith)
            requires
                it == div_ceil(n, total),
                0 < total < n <= 65535,
        {
            assert(n / total <= n);
            assert(it <= n);
            assert(total * it + it == (total + 1) * it);
            assert((total + 1) * it <= 65535 * 65535);
        }
    }
}

/// The text of a game made of a text file, as `new_typechar_text` states.
pub fn get_new_typechar_text(text: &String, number_words: u16) -> (r: Vec<TypeChar>)
    requires
        words_of(text@).len() == 0 ==> number_words == 0,
    ensures
        r@ == new_typechar_text(text@, number_words as int),
{
    let chars = chars_of(text.as_str());
    let n_words = count_words_chars(&chars);
    proof {
        lemma_u16_extension_computable(number_words as int, n_words as int);
    }
    let (extended, _) = extend_chars(&chars, number_words as usize, n_words);
    to_typechars(&extended)
}

/// The executable form of `wrap_fits`.
pub fn wrap_fits_check(text: &Vec<TypeChar>, width: u16) -> (r: bool)
    requires
        width >= 1,
    ensures
        r == wrap_fits(text@, width as int),
{
    let ghost s = text@.push(spec_space());
    let n = text.len();
    let mut position: u64 = 0;
    let mut word_len: usize = 0;
    let mut i: usize = 0;
    assert(s.take(0) =~= Seq::<TypeChar>::empty());
    while i < n
        invariant
            n == text@.len(),
            s == text@.push(spec_space()),
            width >= 1,
            i <= n,
            position as int == wrap_fold(s.take(i as int), width as int).position,
            word_len as int == wrap_fold(s.take(i as int), width as int).word.len(),
            word_len <= i,
            position <= 65535,
            forall|k: int| 0 <= k <= i ==> #[trigger] wrap_fold(s.take(k), width as int).position <= u16::MAX,
        decreases n - i,
    {
        let c = text[i];
        proof {
            assert(s.take(i + 1).drop_last() =~= s.take(i as int));
            assert(s.take(i + 1).last() == c);
        }
        if c.char == ' ' {
            if position < (width as u64) - 1 {
                position = position + 1;
            } else if word_len >= 65535 {
                position = 65536;
            } else {
                position = (word_len as u64) + 1;
            }
            word_len = 0;
        } else {
            position = position + 1;
            word_len = word_len + 1;
        }
        if position > 65535 {
            assert(wrap_fold(s.take(i + 1), width as int).position > u16::MAX);
            return false;
        }
        i = i + 1;
    }
    let c = TypeChar::guard();
    proof {
        assert(s.take(n + 1).drop_last() =~= s.take(n as int));
        assert(s.take(n + 1).last() == c);
    }
    let next = if position < (width as u64) - 1 {
        position + 1
    } else if word_len >= 65535 {
        65536
    } else {
        (word_len as u64) + 1
    };
    assert((next <= 65535) == (wrap_fold(s.take(n + 1), width as int).position <= u16::MAX));
    if next <= 65535 {
        assert forall|k: int| 0 <= k <= n + 1 implies #[trigger] wrap_fold(s.take(k), width as int).position <= u16::MAX by {
        }
        true
    } else {
        false
    }
}

} // verus!

verus! {

/// The first line whose end is at or after position `t` (searching from
/// line `i`).
pub open spec fn first_line_reaching(ls: Seq<Seq<TypeChar>>, t: int, i: int) -> int
    decreases ls.len() - i,
{
    if i >= ls.len() {
        i
    } else if prefix_len(ls, i + 1) >= t {
        i
    } else {
        first_line_reaching(ls, t, i + 1)
    }
}

/// The characters of a batch of generated words: each word preceded by a
/// space.
pub open spec fn batch_chars(ws: Seq<Seq<char>>) -> Seq<TypeChar>
    decreases ws.len(),
{
    if ws.len() == 0 {
        Seq::empty()
    } else {
        batch_chars(ws.drop_last()).push(spec_space()) + untyped_text(ws.last())
    }
}

/// A batch without its first character (the space before the first word).
pub open spec fn drop_first_char(s: Seq<TypeChar>) -> Seq<TypeChar> {
    if s.len() > 0 {
        s.drop_first()
    } else {
        s
    }
}

pub proof fn lemma_batch_chars_start(ws: Seq<Seq<char>>)
    ensures
        ws.len() > 0 ==> batch_chars(ws).len() > 0 && batch_chars(ws)[0] == spec_space(),
        forall|i: int| 0 <= i < batch_chars(ws).len() ==> (#[trigger] batch_chars(ws)[i]).state
            == CharacterState::NotTyped,
    decreases ws.len(),
{
    if ws.len() > 0 {
        lemma_batch_chars_start(ws.drop_last());
        let a = batch_chars(ws.drop_last()).push(spec_space());
        let b = untyped_text(ws.last());
        assert forall|i: int| 0 <= i < batch_chars(ws).len() implies (#[trigger] batch_chars(ws)[i]).state
            == CharacterState::NotTyped by {
            if i < a.len() {
                assert(batch_chars(ws)[i] == a[i]);
            } else {
                assert(batch_chars(ws)[i] == b[i - a.len()]);
                assert(b[i - a.len()] == fresh_char(ws.last()[i - a.len()]));
            }
        }
        if ws.len() > 1 {
            lemma_batch_chars_start(ws.drop_last());
        }
    }
}

pub proof fn lemma_untyped_text_states(s: Seq<char>)
    ensures
        untyped_text(s).len() == s.len(),
        forall|i: int| 0 <= i < s.len() ==> (#[trigger] untyped_text(s)[i]).state
            == CharacterState::NotTyped,
{
    assert forall|i: int| 0 <= i < s.len() implies (#[trigger] untyped_text(s)[i]).state
        == CharacterState::NotTyped by {
        assert(untyped_text(s)[i] == fresh_char(s[i]));
    }
}

impl TextWidget {
    /// The whole text in one vector.
    pub fn flat_chars(&self) -> (r: Vec<TypeChar>)
        requires
            self.lines is Some,
        ensures
            r@ == self.chars(),
    {
        let mut r: Vec<TypeChar> = Vec::new();
        match &self.lines {
            Some(lines) => {
                let ghost ls = line_views(lines@);
                for i in 0..lines.len()
                    invariant
                        ls == line_views(lines@),
                        r@ == flatten(ls.take(i as int)),
                {
                    assert(ls[i as int] == lines@[i as int].line@);
                    let mut copy: Vec<TypeChar> = Vec::new();
                    let line_len = lines[i].line.len();
                    for j in 0..line_len
                        invariant
                            i < lines@.len(),
                            line_len == lines@[i as int].line@.len(),
                            copy@ == lines@[i as int].line@.take(j as int),
                    {
                        copy.push(lines[i].line[j]);
                        assert(lines@[i as int].line@.take(j + 1) =~= lines@[i as int].line@.take(
                            j as int,
                        ).push(lines@[i as int].line@[j as int]));
                    }
                    assert(lines@[i as int].line@.take(lines@[i as int].line@.len() as int) =~= lines@[i as int].line@);
                    r.append(&mut copy);
                    assert(ls.take(i + 1).drop_last() =~= ls.take(i as int));
                }
                assert(ls.take(lines.len() as int) =~= ls);
            },
            None => {},
        }
        r
    }

    /// Puts the line-and-column cursor back on the position in the text
    /// after the lines changed: the first line that reaches the position.
    pub fn correct_position(&mut self)
        requires
            old(self).lines is Some,
            old(self).chars().len() <= usize::MAX,
        ensures
            final(self).lines == old(self).lines,
            first_line_reaching(old(self).line_seqs(), old(self).total_position as int, 0)
                < old(self).line_seqs().len() ==> {
                &&& final(self).n_line == first_line_reaching(
                    old(self).line_seqs(),
                    old(self).total_position as int,
                    0,
                )
                &&& final(self).pos_in_line == old(self).total_position - prefix_len(
                    old(self).line_seqs(),
                    final(self).n_line as int,
                )
                &&& final(self).pos_in_line <= final(self).line_seqs()[final(self).n_line as int].len()
            },
            first_line_reaching(old(self).line_seqs(), old(self).total_position as int, 0)
                == old(self).line_seqs().len() ==> {
                &&& final(self).n_line == old(self).n_line
                &&& final(self).pos_in_line == old(self).total_position - old(self).chars().len()
            },
            old(self).line_seqs().len() >= 1 && old(self).total_position <= old(self).chars().len()
                ==> first_line_reaching(old(self).line_seqs(), old(self).total_position as int, 0)
                < old(self).line_seqs().len(),
            final(self).total_position == old(self).total_position,
            final(self).total_size == old(self).total_size,
            final(self).mistakes_counter == old(self).mistakes_counter,
            final(self).state == old(self).state,
            final(self).kind_length == old(self).kind_length,
            final(self).current_width == old(self).current_width,
            final(self).async_text_source == old(self).async_text_source,
    {
        let ghost ls = self.line_seqs();
        let t = self.total_position;
        let mut acc: usize = 0;
        let n = match &self.lines {
            Some(lines) => lines.len(),
            None => 0,
        };
        let mut i: usize = 0;
        let mut found = false;
        assert(ls.take(0) =~= Seq::<Seq<TypeChar>>::empty());
        proof {
            lemma_prefix_len_all(ls);
        }
        while i < n && !found
            invariant
                self.lines is Some,
                ls == self.line_seqs(),
                n == ls.len(),
                t == self.total_position,
                flatten(ls).len() <= usize::MAX,
                i <= n,
                acc == prefix_len(ls, i as int),
                acc <= t,
                prefix_len(ls, n as int) == flatten(ls).len(),
                found ==> i < n && prefix_len(ls, i + 1) >= t && first_line_reaching(
                    ls,
                    t as int,
                    0,
                ) == i,
                !found ==> first_line_reaching(ls, t as int, 0) == first_line_reaching(
                    ls,
                    t as int,
                    i as int,
                ),
                !found && i > 0 ==> prefix_len(ls, i as int) < t,
            decreases n - i + (if found { 0int } else { 1int }),
        {
            proof {
                lemma_flatten_split(ls, i as int);
            }
            let len = match &self.lines {
                Some(lines) => lines[i].line.len(),
                None => 0,
            };
            let new_acc = acc + len;
            if new_acc >= t {
                found = true;
            } else {
                acc = new_acc;
                i = i + 1;
            }
        }
        if found {
            proof {
                lemma_flatten_split(ls, i as int);
            }
            self.n_line = i;
        }
        self.pos_in_line = t - acc;
    }

    /// Whether the text can be cut into lines of width `width`: the cutting
    /// counts positions on a `u16` and needs a width of at least one.
    pub fn fits_width(&self, width: u16) -> (r: bool)
        requires
            self.lines is Some,
        ensures
            r == (width >= 1 && wrap_fits(self.chars(), width as int)),
    {
        if width == 0 {
            return false;
        }
        let all = self.flat_chars();
        wrap_fits_check(&all, width)
    }

    /// Cuts the text again for a new width and puts the cursor back on the
    /// same position in the text.
    pub fn reformat(&mut self, new_max_width: u16)
        requires
            old(self).wf(),
            old(self).lines is Some,
            new_max_width >= 1,
            wrap_fits(old(self).chars(), new_max_width as int),
        ensures
            final(self).wf(),
            final(self).lines is Some,
            final(self).chars() == old(self).chars(),
            final(self).line_seqs() == wrapped_lines(old(self).chars(), new_max_width as int),
            final(self).total_position == old(self).total_position,
            final(self).n_line == first_line_reaching(
                final(self).line_seqs(),
                old(self).total_position as int,
                0,
            ),
            final(self).current_width == new_max_width,
            final(self).mistakes_counter == old(self).mistakes_counter,
            final(self).state == old(self).state,
            final(self).kind_length == old(self).kind_length,
            final(self).total_size == old(self).total_size,
            final(self).async_text_source == old(self).async_text_source,
    {
        let all = self.flat_chars();
        let ghost s = all@;
        let new_lines = get_lines(all, new_max_width);
        proof {
            lemma_wrapped_lines_flatten(s, new_max_width as int);
        }
        self.lines = Some(new_lines);
        self.correct_position();
        self.current_width = new_max_width;
        proof {
            lemma_flatten_split(self.line_seqs(), self.n_line as int);
        }
    }
}

} // verus!

verus! {

/// `ws` is the batch of `n` words that the generator `g` draws from its list
/// (from its current state, so `n` words when the list is not empty, each
/// one of the list).
pub open spec fn valid_batch(g: TextGenerator, n: int, ws: Seq<Seq<char>>) -> bool {
    &&& ws == drawn_words(word_views(g.word_list.words@), n as nat, g.rng)
    &&& ws.len() == (if g.word_list.words@.len() == 0 {
        0
    } else {
        n
    })
    &&& forall|i: int| 0 <= i < ws.len() ==> in_word_list(g.word_list.words@, #[trigger] ws[i])
}

/// Draws `n` words from a copy of the generator (so the generator itself
/// does not move on) and lays them out, each after a space.
fn generator_batch(g: &TextGenerator, n: usize) -> (r: Vec<TypeChar>)
    ensures
        exists|ws: Seq<Seq<char>>| valid_batch(*g, n as int, ws) && r@ == batch_chars(ws),
{
    let mut copy = g.clone_generator();
    proof {
        assert(word_views(copy.word_list.words@) =~= word_views(g.word_list.words@));
    }
    let words = copy.take_words(n);
    let ghost gw = g.word_list.words@;
    let ghost ws = words@.map_values(|w: String| w@);
    assert(ws == word_views(words@));
    assert forall|i: int| 0 <= i < words@.len() implies in_word_list(gw, #[trigger] ws[i]) by {
        let j = choose|j: int| 0 <= j < copy.word_list.words@.len() && copy.word_list.words@[j]@ == words@[i]@;
        assert(gw[j]@ == words@[i]@);
    }
    let mut out: Vec<TypeChar> = Vec::new();
    for i in 0..words.len()
        invariant
            ws == words@.map_values(|w: String| w@),
            out@ == batch_chars(ws.take(i as int)),
    {
        out.push(TypeChar::space());
        let cs = chars_of(words[i].as_str());
        let mut tc = to_typechars(&cs);
        out.append(&mut tc);
        assert(ws.take(i + 1).drop_last() =~= ws.take(i as int));
        assert(ws.take(i + 1).last() == words@[i as int]@);
    }
    assert(ws.take(words.len() as int) =~= ws);
    assert(valid_batch(*g, n as int, ws));
    out
}

impl TextWidget {
    /// The text read from the file, once it is there.
    pub open spec fn static_text(&self) -> Seq<char> {
        match self.async_text_source {
            Some(TextSource::StaticText(Some(text))) => text@,
            _ => Seq::empty(),
        }
    }

    /// Lays out the text read from a file for `number_words` words, on lines
    /// of width 100. Returns `false`, changing nothing, where the layout
    /// cannot be made: the text has no word but words are asked for, or a
    /// line position passes the `u16` counter.
    pub fn init_text(&mut self, number_words: u16) -> (r: bool)
        requires
            old(self).async_text_source matches Some(TextSource::StaticText(Some(_))),
        ensures
            r == ((number_words == 0 || words_of(old(self).static_text()).len() > 0) && wrap_fits(
                new_typechar_text(old(self).static_text(), number_words as int),
                100,
            )),
            r ==> {
                let ttt = new_typechar_text(old(self).static_text(), number_words as int);
                &&& final(self).lines is Some
                &&& final(self).chars().len() <= usize::MAX
                &&& final(self).line_seqs() == wrapped_lines(ttt, 100)
                &&& final(self).chars() == ttt
                &&& final(self).total_size == ttt.len()
                &&& final(self).n_line == old(self).n_line
                &&& final(self).pos_in_line == old(self).pos_in_line
                &&& final(self).total_position == old(self).total_position
                &&& final(self).mistakes_counter == old(self).mistakes_counter
                &&& final(self).state == old(self).state
                &&& final(self).kind_length == old(self).kind_length
                &&& final(self).current_width == old(self).current_width
                &&& final(self).async_text_source == old(self).async_text_source
            },
            !r ==> *final(self) == *old(self),
    {
        let typechar_text = match &self.async_text_source {
            Some(TextSource::StaticText(Some(text))) => {
                let chars = chars_of(text.as_str());
                let n_words = count_words_chars(&chars);
                if n_words == 0 && number_words > 0 {
                    return false;
                }
                get_new_typechar_text(text, number_words)
            },
            _ => {
                return false;
            },
        };
        if !wrap_fits_check(&typechar_text, 100) {
            return false;
        }
        let ghost ttt = typechar_text@;
        let tlen = typechar_text.len();
        assert(ttt.len() == tlen);
        proof {
            lemma_wrapped_lines_flatten(ttt, 100);
        }
        self.total_size = typechar_text.len();
        self.lines = Some(get_lines(typechar_text, 100));
        true
    }
}

} // verus!

verus! {

/// Appending characters not typed yet keeps how far the text is typed.
pub proof fn lemma_append_untyped_progress(
    s: Seq<TypeChar>,
    extra: Seq<TypeChar>,
    t: int,
    state: TextWidgetState,
    counter: int,
    finished: bool,
)
    requires
        progress_inv(s, t, state, counter, finished),
        state is InProgress,
        forall|i: int| 0 <= i < extra.len() ==> (#[trigger] extra[i]).state == CharacterState::NotTyped,
    ensures
        progress_inv(s + extra, t, state, counter, finished),
{
    let a = s + extra;
    lemma_count_incorrect_concat(s, extra);
    lemma_count_incorrect_none(extra);
    assert forall|i: int| t < i < a.len() implies (#[trigger] a[i]).state == CharacterState::NotTyped by {
        if i >= s.len() {
            assert(a[i] == extra[i - s.len()]);
        }
    }
    assert forall|i: int| 0 <= i < t implies typed_or_incorrect(#[trigger] a[i].state) by {
        assert(a[i] == s[i]);
    }
    if finished && t < a.len() {
        if t >= s.len() {
            assert(a[t] == extra[t - s.len()]);
        }
    }
}

/// The cursor stays on the same character when the lines are extended.
pub proof fn lemma_extend_layout(
    w: &TextWidget,
    w2: &TextWidget,
)
    requires
        w.lines is Some,
        w.layout_ok(),
        w2.lines is Some,
        lines_extend(w.line_seqs(), w2.line_seqs()),
        w2.n_line == w.n_line,
        w2.pos_in_line == w.pos_in_line,
        w2.total_position == w.total_position,
        w2.current_width == w.current_width,
        w2.chars().len() <= usize::MAX,
        w2.current_width >= 1 ==> w2.line_seqs() == wrapped_lines(w2.chars(), w2.current_width as int),
    ensures
        w2.layout_ok(),
{
    lemma_lines_extend_prefix(w.line_seqs(), w2.line_seqs(), w.n_line as int);
}

impl TextWidget {
    /// The generator of words, once it is there.
    pub open spec fn generator(&self) -> TextGenerator {
        match self.async_text_source {
            Some(TextSource::Generator(Some(g))) => g,
            _ => vstd::pervasive::arbitrary(),
        }
    }

    /// The text with a batch of characters added, as the lines are rebuilt
    /// from it: the batch alone when there were no lines yet.
    pub open spec fn text_with(&self, batch: Seq<TypeChar>, drop_space: bool) -> Seq<TypeChar> {
        if self.lines is Some {
            self.chars() + batch
        } else if drop_space {
            drop_first_char(batch)
        } else {
            batch
        }
    }

    /// `self` is `prev` with new lines built from `all` for width `w`.
    pub open spec fn rebuilt_from(&self, prev: &TextWidget, all: Seq<TypeChar>, w: int) -> bool {
        &&& self.lines is Some
        &&& self.line_seqs() == wrapped_lines(all, w)
        &&& self.chars() == all
        &&& all.len() <= usize::MAX
        &&& self.n_line == prev.n_line
        &&& self.pos_in_line == prev.pos_in_line
        &&& self.total_position == prev.total_position
        &&& self.total_size == prev.total_size
        &&& self.mistakes_counter == prev.mistakes_counter
        &&& self.state == prev.state
        &&& self.kind_length == prev.kind_length
        &&& self.current_width == prev.current_width
        &&& self.async_text_source == prev.async_text_source
    }

    /// Adds text after the current one and cuts everything into lines of
    /// width `width_max` again. A generator adds `batch_size` words drawn
    /// from a copy of itself, each after a space (the first space is dropped
    /// when there is no text yet); a text file adds a space and the file's
    /// text repeated to ten words. Returns `false`, changing nothing, where
    /// the lines cannot be built (the file has no word, or a line position
    /// passes the `u16` counter).
    pub fn genrate_new_batch(&mut self, batch_size: u16, width_max: u16) -> (r: bool)
        requires
            width_max >= 1,
            (old(self).async_text_source matches Some(TextSource::StaticText(Some(_))))
                || (old(self).async_text_source matches Some(TextSource::Generator(Some(_)))),
            old(self).lines is Some ==> old(self).layout_ok(),
        ensures
            (old(self).async_text_source matches Some(TextSource::StaticText(Some(_)))) ==> {
                let all = old(self).text_with(
                    spec_space_then(new_typechar_text(old(self).static_text(), 10), old(self).lines is Some),
                    false,
                );
                &&& r == (words_of(old(self).static_text()).len() > 0 && wrap_fits(all, width_max as int))
                &&& r ==> final(self).rebuilt_from(old(self), all, width_max as int)
            },
            (old(self).async_text_source matches Some(TextSource::Generator(Some(_)))) ==> exists|
                ws: Seq<Seq<char>>,
            |
                {
                    let all = old(self).text_with(batch_chars(ws), true);
                    &&& #[trigger] valid_batch(old(self).generator(), batch_size as int, ws)
                    &&& r == wrap_fits(all, width_max as int)
                    &&& r ==> final(self).rebuilt_from(old(self), all, width_max as int)
                },
            !r ==> *final(self) == *old(self),
            (r && old(self).wf() && old(self).lines is Some && old(self).current_width == width_max
                && old(self).state is InProgress) ==> final(self).wf(),
    {
        let ghost w0 = *self;
        let ghost mut ws_chosen: Seq<Seq<char>> = Seq::empty();
        let ghost mut ext: Seq<TypeChar> = Seq::empty();
        let all: Vec<TypeChar> = match &self.async_text_source {
            Some(TextSource::Generator(Some(g))) => {
                let new_chars = generator_batch(g, batch_size as usize);
                let ghost ws = choose|ws: Seq<Seq<char>>|
                    valid_batch(*g, batch_size as int, ws) && new_chars@ == batch_chars(
                        ws,
                    );
                proof {
                    lemma_batch_chars_start(ws);
                    ws_chosen = ws;
                    ext = batch_chars(ws);
                }
                let mut all: Vec<TypeChar> = Vec::new();
                if self.lines.is_some() {
                    all = self.flat_chars();
                    let mut nc = new_chars;
                    all.append(&mut nc);
                } else {
                    let mut k: usize = 1;
                    while k < new_chars.len()
                        invariant
                            1 <= k <= new_chars.len() || new_chars.len() == 0,
                            new_chars.len() > 0 ==> all@ == new_chars@.subrange(1, k as int),
                            new_chars.len() == 0 ==> all@.len() == 0,
                        decreases new_chars.len() - k,
                    {
                        all.push(new_chars[k]);
                        assert(new_chars@.subrange(1, k + 1) =~= new_chars@.subrange(1, k as int).push(
                            new_chars@[k as int],
                        ));
                        k = k + 1;
                    }
                    if new_chars.len() > 0 {
                        assert(new_chars@.subrange(1, new_chars.len() as int) =~= new_chars@.drop_first());
                    }
                }
                assert(all@ == w0.text_with(batch_chars(ws), true));
                all
            },
            Some(TextSource::StaticText(Some(text))) => {
                let chars = chars_of(text.as_str());
                let n_words = count_words_chars(&chars);
                if n_words == 0 {
                    return false;
                }
                let type_char_text = get_new_typechar_text(text, 10);
                proof {
                    ext = seq![spec_space()] + type_char_text@;
                    lemma_untyped_text_states(extended_text(w0.static_text(), 10, words_of(w0.static_text()).len() as int).0);
                    assert forall|i: int| 0 <= i < ext.len() implies (#[trigger] ext[i]).state == CharacterState::NotTyped by {
                        if i > 0 {
                            assert(ext[i] == type_char_text@[i - 1]);
                        }
                    }
                }
                let mut all: Vec<TypeChar> = Vec::new();
                if self.lines.is_some() {
                    all = self.flat_chars();
                    all.push(TypeChar::space());
                    let mut ttt = type_char_text;
                    all.append(&mut ttt);
                } else {
                    all = type_char_text;
                }
                assert(all@ == w0.text_with(
                    spec_space_then(new_typechar_text(w0.static_text(), 10), w0.lines is Some),
                    false,
                ));
                all
            },
            _ => {
                return false;
            },
        };
        if !wrap_fits_check(&all, width_max) {
            assert(valid_batch(w0.generator(), batch_size as int, ws_chosen) || !(w0.async_text_source matches Some(TextSource::Generator(Some(_)))));
            return false;
        }
        let ghost a = all@;
        let alen = all.len();
        assert(a.len() == alen);
        proof {
            lemma_wrapped_lines_flatten(a, width_max as int);
        }
        self.lines = Some(get_lines(all, width_max));
        proof {
            if w0.wf() && w0.lines is Some && w0.current_width == width_max && w0.state is InProgress {
                let s = w0.chars();
                assert(a == s + ext);
                assert(a.subrange(0, s.len() as int) =~= s);
                assert forall|i: int| s.len() <= i < a.len() implies (#[trigger] a[i]).state
                    == CharacterState::NotTyped by {
                    assert(a[i] == ext[i - s.len()]);
                }
                lemma_extend_wf(&w0, self, width_max);
            }
        }
        assert(valid_batch(w0.generator(), batch_size as int, ws_chosen) || !(w0.async_text_source matches Some(TextSource::Generator(Some(_)))));
        true
    }
}

/// A space before the added text when there is text already.
pub open spec fn spec_space_then(t: Seq<TypeChar>, with_space: bool) -> Seq<TypeChar> {
    if with_space {
        seq![spec_space()] + t
    } else {
        t
    }
}

/// Rebuilding the lines from the text with characters not typed yet added
/// (the first of them a space) keeps the invariant.
pub proof fn lemma_extend_wf(w: &TextWidget, w2: &TextWidget, width: u16)
    requires
        w.wf(),
        w.lines is Some,
        w.current_width == width,
        width >= 1,
        w.state is InProgress,
        w2.lines is Some,
        w2.chars().len() <= usize::MAX,
        w2.line_seqs() == wrapped_lines(w2.chars(), width as int),
        w2.chars().len() >= w.chars().len(),
        w2.chars().subrange(0, w.chars().len() as int) == w.chars(),
        w2.chars().len() > w.chars().len() ==> w2.chars()[w.chars().len() as int] == spec_space(),
        forall|i: int|
            w.chars().len() <= i < w2.chars().len() ==> (#[trigger] w2.chars()[i]).state
                == CharacterState::NotTyped,
        w2.n_line == w.n_line,
        w2.pos_in_line == w.pos_in_line,
        w2.total_position == w.total_position,
        w2.mistakes_counter == w.mistakes_counter,
        w2.state == w.state,
        w2.kind_length == w.kind_length,
        w2.current_width == w.current_width,
    ensures
        w2.wf(),
{
    let s = w.chars();
    let a = w2.chars();
    let extra = a.subrange(s.len() as int, a.len() as int);
    assert(a =~= s + extra);
    if width >= 1 {
        if a.len() > s.len() {
            let t = extra.drop_first();
            assert(a =~= s.push(spec_space()) + t);
            lemma_wrapped_lines_extend(s, t, width as int);
        } else {
            assert(a =~= s);
            let l = w.line_seqs();
            assert(l[l.len() - 1].take(l.last().len() as int) =~= l.last());
        }
        lemma_extend_layout(w, w2);
    }
    assert forall|i: int| 0 <= i < extra.len() implies (#[trigger] extra[i]).state
        == CharacterState::NotTyped by {
        assert(extra[i] == a[i + s.len()]);
    }
    lemma_append_untyped_progress(s, extra, w.total_position as int, w.state, w.mistakes_counter as int, w.finished_kind());
}

} // verus!

verus! {

impl TextWidget {
    /// How many words the text is first made of: the race's length, or a
    /// thousand for a text that grows.
    pub open spec fn initial_words(&self) -> u16 {
        match self.kind_length {
            KindLength::Unlimited => 1000u16,
            KindLength::Finished(n) => n as u16,
        }
    }

    /// What taking the result of loading did: the source is kept; a failed
    /// load is an error; a text read from a file is laid out for the words
    /// asked, on lines of width 100; words drawn from a list, on lines of
    /// width 20. `ok` is false, with the state and lines left as they were,
    /// where the text cannot be laid out.
    pub open spec fn initialized(self, prev: TextWidget, source: TextSource, ok: bool) -> bool {
        &&& self.async_text_source == Some(source)
        &&& self.kind_length == prev.kind_length
        &&& self.total_position == 0
        &&& self.mistakes_counter == 0
        &&& source.failed() ==> ok && self.state == TextWidgetState::ErrorLoading && self.lines is None
        &&& source matches TextSource::StaticText(Some(text)) ==> {
            let ttt = new_typechar_text(text@, self.initial_words() as int);
            &&& ok == ((self.initial_words() == 0 || words_of(text@).len() > 0) && wrap_fits(ttt, 100))
            &&& ok ==> self.state == TextWidgetState::InProgress && self.chars() == ttt && self.line_seqs()
                == wrapped_lines(ttt, 100) && self.total_size == ttt.len()
        }
        &&& source matches TextSource::Generator(Some(g)) ==> exists|ws: Seq<Seq<char>>|
            {
                let all = drop_first_char(batch_chars(ws));
                &&& #[trigger] valid_batch(g, self.initial_words() as int, ws)
                &&& ok == wrap_fits(all, 20)
                &&& ok ==> self.state == TextWidgetState::InProgress && self.chars() == all && self.line_seqs()
                    == wrapped_lines(all, 20)
            }
        &&& !ok ==> self.state == prev.state && self.lines is None
    }

    /// Takes what loading gave and lays out the text: an error state when
    /// loading failed; otherwise the game starts with the cursor on the first
    /// character. A text file is repeated to the number of words of the
    /// game (cut to a `u16`) on lines of width 100; a generator gives that
    /// many words on lines of width 20. Returns `false`, with only the source
    /// kept, where the text cannot be laid out (see `init_text` and
    /// `genrate_new_batch`).
    pub fn init(&mut self, source: TextSource) -> (r: bool)
        requires
            old(self).wf(),
            old(self).lines is None,
        ensures
            final(self).wf(),
            final(self).initialized(*old(self), source, r),
    {
        let failed = source.as_fail();
        let is_static = match &source {
            TextSource::StaticText(_) => true,
            TextSource::Generator(_) => false,
        };
        self.async_text_source = Some(source);
        if failed {
            self.state = TextWidgetState::ErrorLoading;
            return true;
        }
        let number_words: usize = match self.kind_length {
            KindLength::Unlimited => 1000,
            KindLength::Finished(n) => n,
        };
        let ghost w0 = *self;
        let ghost mut gws: Seq<Seq<char>> = Seq::empty();
        if is_static {
            let ok = self.init_text(#[verifier::truncate] (number_words as u16));
            if !ok {
                return false;
            }
            proof {
                let ttt = self.chars();
                lemma_untyped_text_states(extended_text(
                    w0.static_text(),
                    number_words as u16 as int,
                    words_of(w0.static_text()).len() as int,
                ).0);
                lemma_count_incorrect_none(ttt);
                lemma_wrapped_lines_flatten(ttt, 100);
            }
        } else {
            let ok = self.genrate_new_batch(#[verifier::truncate] (number_words as u16), 20);
            proof {
                let ws = choose|ws: Seq<Seq<char>>|
                    {
                        let all = w0.text_with(batch_chars(ws), true);
                        &&& #[trigger] valid_batch(w0.generator(), number_words as u16 as int, ws)
                        &&& ok == wrap_fits(all, 20)
                        &&& ok ==> self.rebuilt_from(&w0, all, 20)
                    };
                lemma_batch_chars_start(ws);
                assert(valid_batch(self.generator(), self.initial_words() as int, ws));
                gws = ws;
                if ok {
                    let a = self.chars();
                    lemma_wrapped_lines_flatten(a, 20);
                    assert forall|i: int| 0 <= i < a.len() implies (#[trigger] a[i]).state
                        == CharacterState::NotTyped by {
                        assert(a[i] == batch_chars(ws)[i + 1]);
                    }
                    lemma_count_incorrect_none(a);
                }
            }
            if !ok {
                return false;
            }
        }
        self.state = TextWidgetState::InProgress;
        assert(!is_static ==> valid_batch(self.generator(), self.initial_words() as int, gws));
        proof {
            lemma_flatten_split(self.line_seqs(), 0);
            assert(self.line_seqs().take(0) =~= Seq::<Seq<TypeChar>>::empty());
        }
        true
    }
}

} // verus!

verus! {

//------------------------------------------------------------------
//    Laws of the typing game
//------------------------------------------------------------------

pub proof fn lemma_count_incorrect_zero(s: Seq<TypeChar>)
    requires
        count_incorrect(s) == 0,
    ensures
        forall|i: int| 0 <= i < s.len() ==> (#[trigger] s[i]).state != CharacterState::Incorrect,
{
    assert forall|i: int| 0 <= i < s.len() implies (#[trigger] s[i]).state != CharacterState::Incorrect by {
        if s[i].state == CharacterState::Incorrect {
            lemma_count_incorrect_pos(s, i);
        }
    }
}

/// A race is won only when every character of its text has been typed
/// correctly.
pub proof fn law_done_means_all_typed(w: &TextWidget)
    requires
        w.wf(),
        w.state is Done,
    ensures
        w.chars().len() > 0,
        forall|i: int| 0 <= i < w.chars().len() ==> (#[trigger] w.chars()[i]).state == CharacterState::Typed,
{
    let s = w.chars();
    lemma_count_incorrect_zero(s);
    assert forall|i: int| 0 <= i < s.len() implies (#[trigger] s[i]).state == CharacterState::Typed by {
        assert(typed_or_incorrect(s[i].state));
    }
}

/// In a race, the mistakes counter is exactly the number of characters
/// marked incorrect; in a text that grows it is never below it.
pub proof fn law_mistakes_counter(w: &TextWidget)
    requires
        w.wf(),
        w.lines is Some,
    ensures
        w.mistakes_counter >= count_incorrect(w.chars()),
        w.finished_kind() ==> w.mistakes_counter == count_incorrect(w.chars()),
{
}

/// In a game in progress, away from the end of the text, backspace undoes a
/// typed key: the text (with the cursor's character selected), the cursor
/// and the mistakes counter are back as they were.
pub proof fn law_backspace_undoes_key(
    s: Seq<TypeChar>,
    t: int,
    counter: int,
    finished: bool,
    key: char,
)
    requires
        0 <= t,
        t + 1 < s.len(),
        s[t].state == CharacterState::Selected,
        s[t + 1].state == CharacterState::NotTyped,
    ensures
        ({
            let (s1, t1, c1, st1) = key_effect(s, t, counter, TextWidgetState::InProgress, finished, key);
            backspace_effect(s1, t1, c1, st1) == (s, t, counter, TextWidgetState::InProgress)
        }),
{
    let (s1, t1, c1, st1) = key_effect(s, t, counter, TextWidgetState::InProgress, finished, key);
    let (s2, t2, c2, st2) = backspace_effect(s1, t1, c1, st1);
    assert(s2 =~= s);
}

/// The last character of a race typed correctly with no mistake left ends
/// the race as won; with a mistake left, as not won.
pub proof fn law_race_ends_on_last_character(
    s: Seq<TypeChar>,
    counter: int,
    key: char,
)
    requires
        s.len() > 0,
        counter >= 0,
    ensures
        ({
            let t = s.len() - 1;
            let ok = s[t].char == effective_key(key);
            let (s1, t1, c1, st1) = key_effect(s, t, counter, TextWidgetState::InProgress, true, key);
            &&& t1 == t
            &&& (ok && counter == 0 ==> st1 == TextWidgetState::Done)
            &&& (!(ok && counter == 0) ==> st1 == TextWidgetState::DoneWithMistakes)
        }),
{
}

} // verus!

verus! {

/// What handling an action did to the text, for the caller to act on.
#[derive(Clone, Copy, Debug, PartialEq, Eq, Structural)]
pub struct TextUpdate {
    /// A word was completed without a mistake (its time is recorded).
    pub word_done: bool,
    /// The loaded text could not be laid out.
    pub layout_failed: bool,
}

impl TextWidgetComponent {
    /// Whether the widget can handle the action without failing: a key needs
    /// the cursor on a character (and, at the end of a line, a next line that
    /// is not empty); backspace needs the cursor on a character (and, at the
    /// start of a line, a previous line that is not empty).
    pub open spec fn can_update(&self, action: Action) -> bool {
        match action {
            Action::KeyPressed(_) => {
                &&& (self.widget.state is InProgress || self.widget.state is DoneWithMistakes)
                    ==> self.widget.cursor_valid()
                &&& self.widget.state is InProgress ==> self.advance_target_ok()
                &&& self.widget.state is InProgress ==> self.widget.mistakes_counter < usize::MAX
            },
            Action::BackspacePressed => self.widget.lines is Some ==> self.widget.cursor_valid()
                && self.back_target_ok(),
            _ => true,
        }
    }

    /// The executable form of `can_update`.
    pub fn check_update(&self, action: Action) -> (r: bool)
        requires
            self.widget.wf(),
        ensures
            r == self.can_update(action),
    {
        let w = &self.widget;
        let (valid, at_line_end_ok, at_line_start_ok) = match &w.lines {
            Some(lines) => {
                let n = w.n_line;
                let p = w.pos_in_line;
                let valid = n < lines.len() && p < lines[n].line.len();
                let end_ok = if valid && p + 1 >= lines[n].line.len() && n + 1 < lines.len() {
                    lines[n + 1].line.len() > 0
                } else {
                    true
                };
                let start_ok = if valid && matches!(w.state, TextWidgetState::InProgress) && p == 0 && n > 0 {
                    lines[n - 1].line.len() > 0
                } else {
                    true
                };
                (valid, end_ok, start_ok)
            },
            None => (false, true, true),
        };
        match action {
            Action::KeyPressed(_) => {
                let active = matches!(w.state, TextWidgetState::InProgress | TextWidgetState::DoneWithMistakes);
                let in_progress = matches!(w.state, TextWidgetState::InProgress);
                (!active || valid) && (!in_progress || at_line_end_ok) && (!in_progress || w.mistakes_counter
                    < usize::MAX)
            },
            Action::BackspacePressed => w.lines.is_none() || (valid && at_line_start_ok),
            _ => true,
        }
    }

    /// What handling an action did, `prev` being the component before: keys
    /// and backspace as `key_effect` and `backspace_effect` state, the news
    /// that loading answered lays the text out once, other actions change
    /// nothing.
    pub open spec fn updated_from(self, prev: TextWidgetComponent, action: Action, loaded: Option<TextSource>, r: TextUpdate) -> bool {
        &&& self.widget.kind_length == prev.widget.kind_length
        &&& action is KeyPressed ==> {
                &&& (prev.widget.state is InProgress || prev.widget.state is DoneWithMistakes) ==> (
                self.widget.chars(), self.widget.total_position as int,
                self.widget.mistakes_counter as int, self.widget.state) == key_effect(
                    prev.widget.chars(),
                    prev.widget.total_position as int,
                    prev.widget.mistakes_counter as int,
                    prev.widget.state,
                    prev.widget.finished_kind(),
                    action->KeyPressed_0,
                )
                &&& !(prev.widget.state is InProgress || prev.widget.state is DoneWithMistakes)
                    ==> self.widget == prev.widget
                &&& !r.layout_failed
                &&& r.word_done == word_done_by(prev.widget, action->KeyPressed_0)
        }
        &&& action is BackspacePressed ==> {
                &&& prev.widget.lines is None ==> self.widget == prev.widget
                &&& prev.widget.lines is Some ==> (self.widget.chars(),
                    self.widget.total_position as int, self.widget.mistakes_counter as int,
                    self.widget.state) == backspace_effect(
                    prev.widget.chars(),
                    prev.widget.total_position as int,
                    prev.widget.mistakes_counter as int,
                    prev.widget.state,
                )
                &&& !r.word_done && !r.layout_failed
        }
        &&& action is AsyncCachedRecievedData ==> {
                &&& (prev.widget.lines is Some || loaded is None) ==> self.widget == prev.widget
                    && !r.layout_failed
                &&& (prev.widget.lines is None && loaded is Some) ==> self.widget.initialized(
                    prev.widget,
                    loaded->0,
                    !r.layout_failed,
                )
                &&& !r.word_done
        }
        &&& !(action is KeyPressed || action is BackspacePressed || action is AsyncCachedRecievedData)
            ==> self.widget == prev.widget && !r.word_done && !r.layout_failed
    }

    /// Handles an action on the text: keys and backspace as `key_pressed`
    /// and `backspace` state; the news that the text is loaded lays it out
    /// when it is not yet (`loaded` is what loading gave, `None` while it is
    /// still running).
    pub fn update(&mut self, action: Action, loaded: Option<TextSource>) -> (r: TextUpdate)
        requires
            old(self).widget.wf(),
            old(self).can_update(action),
        ensures
            final(self).widget.wf(),
            final(self).updated_from(*old(self), action, loaded, r),
    {
        match action {
            Action::KeyPressed(key) => {
                let word_done = self.key_pressed(key);
                TextUpdate { word_done, layout_failed: false }
            },
            Action::BackspacePressed => {
                self.backspace();
                TextUpdate { word_done: false, layout_failed: false }
            },
            Action::AsyncCachedRecievedData(_) => {
                if self.widget.lines.is_none() {
                    match loaded {
                        Some(source) => {
                            let ok = self.widget.init(source);
                            TextUpdate { word_done: false, layout_failed: !ok }
                        },
                        None => TextUpdate { word_done: false, layout_failed: false },
                    }
                } else {
                    TextUpdate { word_done: false, layout_failed: false }
                }
            },
            _ => TextUpdate { word_done: false, layout_failed: false },
        }
    }
}

} // verus!

verus! {

/// The first line shown when `n` lines are drawn around the cursor's line:
/// the cursor's line sits in the middle, or the text starts at the top.
pub open spec fn first_shown_line(n_line: int, len: int, n: int) -> int {
    if n_line == 0 || n_line >= len {
        0
    } else {
        sat_sub_int(n_line, n / 2)
    }
}

/// The cursor's line is among the lines drawn, in their middle: no more
/// than `n / 2` lines are drawn above it, and exactly `n / 2` unless the text
/// starts at the top; `n` lines are drawn, or all those to the end of the
/// text.
pub proof fn law_cursor_line_is_shown(n_line: int, len: int, n: int)
    requires
        0 <= n_line < len,
        n >= 1,
    ensures
        ({
            let first = first_shown_line(n_line, len, n);
            let count = if first < len {
                if n < len - first {
                    n
                } else {
                    len - first
                }
            } else {
                0
            };
            &&& 0 <= first <= n_line < first + count
            &&& first + count <= len
            &&& count == n || first + count == len
            &&& n_line - first <= n / 2
            &&& first > 0 ==> n_line - first == n / 2
        }),
{
}

pub open spec fn sat_sub_int(a: int, b: int) -> int {
    if a > b {
        a - b
    } else {
        0
    }
}

/// How the text of a game is drawn: a few lines around the cursor, as many
/// lines as fit, or centered.
#[derive(Clone, Copy, Debug, PartialEq, Eq, Structural)]
pub enum SettingsText {
    ThreeLine,
    Max,
    Centered,
}

/// What drawing the text needs: whether the text could be laid out, the
/// first line to draw and how many lines.
#[derive(Clone, Copy, Debug, PartialEq, Eq, Structural)]
pub struct TextView {
    pub laid_out: bool,
    pub first_line: usize,
    pub n_lines: usize,
}

impl TextWidget {
    /// The text is in a state where it is drawn.
    pub open spec fn shown(&self) -> bool {
        self.state is InProgress || self.state is DoneWithMistakes
    }

    /// Prepares the text to be drawn on an area `width` wide and `height`
    /// high, with up to `n` lines around the cursor. A text being typed is
    /// cut again when the width changed; a text that grows gets a new batch
    /// of `width * 2n` words when the lines shown reach its end. Returns the
    /// lines to draw (none when the text is not shown), or `laid_out` false,
    /// with the text unchanged by the failing step, where the text cannot be
    /// cut for that width.
    pub fn prepare_view(&mut self, width: u16, height: u16, n: usize) -> (r: TextView)
        requires
            old(self).wf(),
            old(self).shown() ==> width >= 1,
            old(self).shown() && old(self).kind_length is Unlimited ==> {
                &&& n * 2 <= u16::MAX
                &&& width * (n * 2) <= u16::MAX
                &&& (old(self).async_text_source matches Some(TextSource::StaticText(Some(_))))
                    || (old(self).async_text_source matches Some(TextSource::Generator(Some(_))))
            },
        ensures
            final(self).wf(),
            final(self).state == old(self).state,
            final(self).total_position == old(self).total_position,
            final(self).mistakes_counter == old(self).mistakes_counter,
            final(self).kind_length == old(self).kind_length,
            !old(self).shown() ==> *final(self) == *old(self) && r == (TextView {
                laid_out: true,
                first_line: 0,
                n_lines: 0,
            }),
            old(self).shown() && r.laid_out ==> {
                let shown_n = if (n as int) < (height as int) {
                    n as int
                } else {
                    height as int
                };
                let len = final(self).line_seqs().len() as int;
                &&& final(self).current_width == width
                &&& r.first_line == first_shown_line(final(self).n_line as int, len, shown_n)
                &&& r.n_lines == (if r.first_line < len {
                    if shown_n < len - r.first_line {
                        shown_n
                    } else {
                        len - r.first_line
                    }
                } else {
                    0
                })
                &&& final(self).n_line >= len ==> r.first_line == 0
                &&& r.first_line + r.n_lines <= len || r.n_lines == 0
                &&& r.n_lines <= shown_n
                &&& r.first_line < len ==> r.n_lines == shown_n || r.first_line + r.n_lines == len
                &&& final(self).n_line < len && shown_n >= 1 ==> {
                    &&& r.first_line <= final(self).n_line < r.first_line + r.n_lines
                    &&& final(self).n_line - r.first_line <= shown_n / 2
                    &&& r.first_line > 0 ==> final(self).n_line - r.first_line == shown_n / 2
                }
            },
            old(self).shown() && old(self).kind_length is Finished ==> final(self).chars() == old(self).chars(),
    {
        if !matches!(self.state, TextWidgetState::InProgress | TextWidgetState::DoneWithMistakes) {
            return TextView { laid_out: true, first_line: 0, n_lines: 0 };
        }
        if width != self.current_width {
            if !self.fits_width(width) {
                return TextView { laid_out: false, first_line: 0, n_lines: 0 };
            }
            self.reformat(width);
        }
        let shown_n: usize = if n < height as usize {
            n
        } else {
            height as usize
        };
        let len = match &self.lines {
            Some(lines) => lines.len(),
            None => 0,
        };
        if len == 0 {
            return TextView { laid_out: true, first_line: 0, n_lines: 0 };
        }
        let first_line = if self.n_line == 0 || self.n_line >= len {
            0
        } else {
            self.n_line.saturating_sub(shown_n / 2)
        };
        if matches!(self.kind_length, KindLength::Unlimited) && shown_n >= len - self.n_line {
            assert(shown_n * 2 <= n * 2);
            let doubled: u16 = (shown_n * 2) as u16;
            assert(doubled == shown_n * 2);
            assert(width * doubled <= width * (n * 2)) by (nonlinear_arith)
                requires
                    doubled <= n * 2,
            ;
            let batch: u16 = width * doubled;
            let ok = self.genrate_new_batch(batch, width);
            if !ok {
                return TextView { laid_out: false, first_line: 0, n_lines: 0 };
            }
        }
        let len2 = match &self.lines {
            Some(lines) => lines.len(),
            None => 0,
        };
        let n_lines = if first_line < len2 {
            if shown_n < len2 - first_line {
                shown_n
            } else {
                len2 - first_line
            }
        } else {
            0
        };
        TextView { laid_out: true, first_line, n_lines }
    }
}

} // verus!

verus! {

/// What a typed key does, backspace undoes, as the text component handles
/// them: in a game in progress, with the cursor away from the end of the
/// text, a key then backspace leave the text (characters and their states),
/// the cursor's position, the mistakes counter and the state as they were.
pub proof fn law_backspace_undoes_key_pressed(
    w0: TextWidgetComponent,
    w1: TextWidgetComponent,
    w2: TextWidgetComponent,
    key: char,
    r1: TextUpdate,
    r2: TextUpdate,
)
    requires
        w0.widget.wf(),
        w0.widget.state is InProgress,
        w0.widget.total_position + 1 < w0.widget.chars().len(),
        w0.widget.chars()[w0.widget.total_position as int].state == CharacterState::Selected,
        w0.widget.chars()[w0.widget.total_position + 1].state == CharacterState::NotTyped,
        w1.widget.wf(),
        w1.updated_from(w0, Action::KeyPressed(key), None, r1),
        w2.updated_from(w1, Action::BackspacePressed, None, r2),
    ensures
        w2.widget.chars() == w0.widget.chars(),
        w2.widget.total_position == w0.widget.total_position,
        w2.widget.mistakes_counter == w0.widget.mistakes_counter,
        w2.widget.state == w0.widget.state,
{
    law_backspace_undoes_key(
        w0.widget.chars(),
        w0.widget.total_position as int,
        w0.widget.mistakes_counter as int,
        w0.widget.finished_kind(),
        key,
    );
}

} // verus!
