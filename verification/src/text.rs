//! Text metrics: splitting text into words and counting the lines the
//! word-wrap algorithm produces at a given column width.
//!
//! The same cursor-advance rule drives both the line count used for
//! sizing and the cell positions used for drawing: starting from column
//! zero on line zero, a word that would cross the wrapping width moves
//! the cursor to the start of the next line, the word is placed at the
//! cursor, and the cursor then advances by the word's length plus one
//! trailing space. A word longer than the width is placed anyway and
//! overflows to the right; that is accepted behavior, not an error.

use vstd::prelude::*;
use vstd::string::{StrSliceExecFns, StringExecFns};

verus! {

/// The characters that separate words when text is reflowed: the
/// Unicode white-space set, the same characters `str::split_whitespace`
/// splits on — the ASCII blanks and line breaks (tab through carriage
/// return, space), next line, no-break space, ogham space mark, the
/// typographic spaces, the line and paragraph separators, the narrow
/// no-break space, the medium mathematical space and the ideographic
/// space.
pub open spec fn is_wrap_space(c: char) -> bool {
    let n = c as u32;
    ||| n == 0x20
    ||| (0x09 <= n && n <= 0x0D)
    ||| n == 0x85
    ||| n == 0xA0
    ||| n == 0x1680
    ||| (0x2000 <= n && n <= 0x200A)
    ||| n == 0x2028
    ||| n == 0x2029
    ||| n == 0x202F
    ||| n == 0x205F
    ||| n == 0x3000
}

/// Length of the leading run of non-space characters.
pub open spec fn leading_word_len(s: Seq<char>) -> nat
    decreases s.len(),
{
    if s.len() == 0 || is_wrap_space(s[0]) {
        0
    } else {
        (1 + leading_word_len(s.drop_first())) as nat
    }
}

pub proof fn lemma_leading_word_len_bounds(s: Seq<char>)
    ensures
        leading_word_len(s) <= s.len(),
        s.len() > 0 && !is_wrap_space(s[0]) ==> leading_word_len(s) >= 1,
    decreases s.len(),
{
    if s.len() > 0 && !is_wrap_space(s[0]) {
        lemma_leading_word_len_bounds(s.drop_first());
    }
}

/// The words of a text: its maximal runs of non-space characters, in order.
pub open spec fn words_of(s: Seq<char>) -> Seq<Seq<char>>
    decreases s.len(),
    via words_of_decreases
{
    if s.len() == 0 {
        Seq::empty()
    } else if is_wrap_space(s[0]) {
        words_of(s.drop_first())
    } else {
        let k = leading_word_len(s) as int;
        seq![s.take(k)] + words_of(s.skip(k))
    }
}

#[via_fn]
proof fn words_of_decreases(s: Seq<char>) {
    lemma_leading_word_len_bounds(s);
}

/// A text has no more words than characters.
pub proof fn lemma_words_count_le_len(s: Seq<char>)
    ensures
        words_of(s).len() <= s.len(),
    decreases s.len(),
{
    if s.len() == 0 {
    } else if is_wrap_space(s[0]) {
        lemma_words_count_le_len(s.drop_first());
    } else {
        lemma_leading_word_len_bounds(s);
        lemma_words_count_le_len(s.skip(leading_word_len(s) as int));
    }
}

/// Every word is non-empty and no longer than the whole text.
pub proof fn lemma_words_lens(s: Seq<char>)
    ensures
        forall|i: int|
            0 <= i < words_of(s).len() ==> 1 <= (#[trigger] words_of(s)[i]).len() <= s.len(),
    decreases s.len(),
{
    if s.len() == 0 {
    } else if is_wrap_space(s[0]) {
        lemma_words_lens(s.drop_first());
        assert forall|i: int|
            0 <= i < words_of(s).len() implies 1 <= (#[trigger] words_of(s)[i]).len()
            <= s.len() by {
            assert(words_of(s)[i] == words_of(s.drop_first())[i]);
        }
    } else {
        let k = leading_word_len(s) as int;
        lemma_leading_word_len_bounds(s);
        lemma_words_lens(s.skip(k));
        assert forall|i: int|
            0 <= i < words_of(s).len() implies 1 <= (#[trigger] words_of(s)[i]).len()
            <= s.len() by {
            if i > 0 {
                assert(words_of(s)[i] == words_of(s.skip(k))[i - 1]);
            }
        }
    }
}

/// One word placement: the cell where a word of the given length lands,
/// starting from cursor column `dx` on line `dy`.
pub open spec fn wrap_place(dx: int, dy: int, word_len: int, width: int) -> (int, int) {
    if dx + word_len > width {
        (0, dy + 1)
    } else {
        (dx, dy)
    }
}

/// Cursor state `(column, line)` after words of the given lengths have
/// all been placed at the given wrapping width.
pub open spec fn wrap_cursor(lens: Seq<int>, width: int) -> (int, int)
    decreases lens.len(),
{
    if lens.len() == 0 {
        (0, 0)
    } else {
        let prev = wrap_cursor(lens.drop_last(), width);
        let placed = wrap_place(prev.0, prev.1, lens.last(), width);
        (placed.0 + lens.last() + 1, placed.1)
    }
}

/// The `(column, line)` cell, relative to the text origin, where word
/// `i` of a sequence of words with the given lengths is placed.
pub open spec fn word_position(lens: Seq<int>, width: int, i: int) -> (int, int) {
    let prev = wrap_cursor(lens.take(i), width);
    wrap_place(prev.0, prev.1, lens[i], width)
}

/// The lengths of a sequence of words.
pub open spec fn word_lens(words: Seq<Seq<char>>) -> Seq<int> {
    words.map_values(|w: Seq<char>| w.len() as int)
}

/// The number of lines a text occupies when word-wrapped at the given
/// width: zero for empty text, otherwise one plus the line index the
/// cursor ends on.
pub open spec fn text_height_spec(s: Seq<char>, width: int) -> int {
    if s.len() == 0 {
        0
    } else {
        1 + wrap_cursor(word_lens(words_of(s)), width).1
    }
}

/// The cursor's column is never negative and its line index never
/// exceeds the number of words placed so far.
pub proof fn lemma_wrap_cursor_bounds(lens: Seq<int>, width: int)
    requires
        forall|i: int| 0 <= i < lens.len() ==> #[trigger] lens[i] >= 1,
    ensures
        wrap_cursor(lens, width).0 >= 0,
        0 <= wrap_cursor(lens, width).1 <= lens.len(),
    decreases lens.len(),
{
    if lens.len() > 0 {
        lemma_wrap_cursor_bounds(lens.drop_last(), width);
    }
}

/// Every word is placed at a column within the wrapping width.
pub proof fn lemma_word_position_bounds(lens: Seq<int>, width: int, i: int)
    requires
        width >= 1,
        forall|j: int| 0 <= j < lens.len() ==> #[trigger] lens[j] >= 1,
        0 <= i < lens.len(),
    ensures
        0 <= word_position(lens, width, i).0 <= width - 1,
        0 <= word_position(lens, width, i).1,
{
    let prefix = lens.take(i);
    assert(forall|j: int| 0 <= j < prefix.len() ==> #[trigger] prefix[j] >= 1);
    lemma_wrap_cursor_bounds(prefix, width);
}

/// The cursor's line index never decreases as words are placed.
pub proof fn lemma_wrap_line_monotone(lens: Seq<int>, width: int, i: int)
    requires
        0 <= i <= lens.len(),
    ensures
        wrap_cursor(lens.take(i), width).1 <= wrap_cursor(lens, width).1,
    decreases lens.len() - i,
{
    if i < lens.len() {
        lemma_wrap_line_monotone(lens.drop_last(), width, i);
        assert(lens.drop_last().take(i) =~= lens.take(i));
    } else {
        assert(lens.take(i) =~= lens);
    }
}

/// A word's placement line is the cursor's line right after it is
/// placed, and so never lies past the line the cursor ends on.
pub proof fn lemma_word_line_le_final(lens: Seq<int>, width: int, i: int)
    requires
        0 <= i < lens.len(),
    ensures
        word_position(lens, width, i).1 == wrap_cursor(lens.take(i + 1), width).1,
        word_position(lens, width, i).1 <= wrap_cursor(lens, width).1,
{
    assert(lens.take(i + 1).drop_last() =~= lens.take(i));
    assert(lens.take(i + 1).last() == lens[i]);
    lemma_wrap_line_monotone(lens, width, i + 1);
}

proof fn lemma_wrap_cursor_width_monotone(lens: Seq<int>, w1: int, w2: int)
    requires
        w1 <= w2,
        forall|i: int| 0 <= i < lens.len() ==> 1 <= #[trigger] lens[i] <= w1,
    ensures
        wrap_cursor(lens, w2).1 < wrap_cursor(lens, w1).1 || (wrap_cursor(lens, w2).1
            == wrap_cursor(lens, w1).1 && wrap_cursor(lens, w2).0 <= wrap_cursor(lens, w1).0),
    decreases lens.len(),
{
    if lens.len() > 0 {
        lemma_wrap_cursor_width_monotone(lens.drop_last(), w1, w2);
        lemma_wrap_cursor_bounds(lens.drop_last(), w1);
        lemma_wrap_cursor_bounds(lens.drop_last(), w2);
    }
}

/// Wider columns never need more lines: for text whose words all fit
/// the narrower width, the wrapped line count does not increase when
/// the wrapping width grows.
pub proof fn lemma_text_height_monotone(s: Seq<char>, w1: int, w2: int)
    requires
        s.len() > 0,
        1 <= w1 <= w2,
        forall|i: int| 0 <= i < words_of(s).len() ==> (#[trigger] words_of(s)[i]).len() <= w1,
    ensures
        text_height_spec(s, w2) <= text_height_spec(s, w1),
{
    let lens = word_lens(words_of(s));
    lemma_words_lens(s);
    assert forall|i: int| 0 <= i < lens.len() implies 1 <= #[trigger] lens[i] <= w1 by {
        assert(lens[i] == words_of(s)[i].len());
    }
    lemma_wrap_cursor_width_monotone(lens, w1, w2);
}

/// Empty text occupies no lines at any width.
pub proof fn lemma_empty_text_height(width: int)
    ensures
        text_height_spec(Seq::<char>::empty(), width) == 0,
{
}

/// The sizing pass and the drawing pass agree: every word of a text is
/// drawn on a line strictly below the line count that sizes the text at
/// the same width.
pub proof fn lemma_drawing_stays_within_height(s: Seq<char>, width: int, i: int)
    requires
        0 <= i < words_of(s).len(),
    ensures
        word_position(word_lens(words_of(s)), width, i).1 < text_height_spec(s, width),
{
    lemma_word_line_le_final(word_lens(words_of(s)), width, i);
}

fn is_space(c: char) -> (b: bool)
    ensures
        b == is_wrap_space(c),
{
    let n = c as u32;
    n == 0x20 || (0x09 <= n && n <= 0x0D) || n == 0x85 || n == 0xA0 || n == 0x1680 || (0x2000 <= n
        && n <= 0x200A) || n == 0x2028 || n == 0x2029 || n == 0x202F || n == 0x205F || n == 0x3000
}

/// Whether position `j` still lies inside the current word.
fn word_continues(text: &str, j: usize, n: usize) -> (b: bool)
    requires
        n == text@.len(),
        j <= n,
    ensures
        b == (j < n && !is_wrap_space(text@[j as int])),
{
    if j < n {
        let c = text.get_char(j);
        !is_space(c)
    } else {
        false
    }
}

proof fn lemma_leading_word_len_from_range(s: Seq<char>, a: int, b: int)
    requires
        0 <= a <= b <= s.len(),
        forall|k: int| a <= k < b ==> !is_wrap_space(#[trigger] s[k]),
        b == s.len() || is_wrap_space(s[b]),
    ensures
        leading_word_len(s.skip(a)) == b - a,
    decreases b - a,
{
    if a < b {
        assert(s.skip(a).len() > 0);
        assert(s.skip(a)[0] == s[a]);
        assert(s.skip(a).drop_first() =~= s.skip(a + 1));
        lemma_leading_word_len_from_range(s, a + 1, b);
    } else {
        if b < s.len() {
            assert(s.skip(a)[0] == s[b]);
        }
    }
}

/// Split a text into its words: the maximal runs of non-whitespace
/// characters, in order of appearance.
pub fn split_words(text: &str) -> (words: Vec<String>)
    ensures
        words.deep_view() == words_of(text@),
{
    let n = text.unicode_len();
    let mut words: Vec<String> = Vec::new();
    let mut i: usize = 0;
    proof {
        assert(words.deep_view() =~= Seq::<Seq<char>>::empty());
        assert(text@.skip(0) =~= text@);
        assert(Seq::<Seq<char>>::empty() + words_of(text@) =~= words_of(text@));
    }
    while i < n
        invariant
            n == text@.len(),
            i <= n,
            words.deep_view() + words_of(text@.skip(i as int)) == words_of(text@),
        decreases n - i,
    {
        let c = text.get_char(i);
        if is_space(c) {
            proof {
                assert(text@.skip(i as int).drop_first() =~= text@.skip(i + 1));
            }
            i += 1;
        } else {
            let mut j: usize = i + 1;
            while word_continues(text, j, n)
                invariant
                    n == text@.len(),
                    i < j <= n,
                    forall|k: int| i <= k < j ==> !is_wrap_space(#[trigger] text@[k]),
                decreases n - j,
            {
                j += 1;
            }
            let word = text.substring_char(i, j);
            let owned = String::from_str(word);
            let ghost prev_dv = words.deep_view();
            words.push(owned);
            proof {
                lemma_leading_word_len_from_range(text@, i as int, j as int);
                assert(text@.skip(i as int).take(j - i) =~= text@.subrange(i as int, j as int));
                assert(words_of(text@.skip(i as int)) == seq![word@] + words_of(
                    text@.skip(i as int).skip(j - i),
                ));
                assert(text@.skip(i as int).skip(j - i) =~= text@.skip(j as int));
                assert(words.deep_view() =~= prev_dv + seq![word@]);
                assert((prev_dv + seq![word@]) + words_of(text@.skip(j as int)) =~= prev_dv + (
                seq![word@] + words_of(text@.skip(j as int))));
            }
            i = j;
        }
    }
    proof {
        assert(text@.skip(n as int) =~= Seq::<char>::empty());
        assert(words.deep_view() + words_of(text@.skip(n as int)) =~= words.deep_view());
    }
    words
}

/// The number of lines the word-wrap algorithm produces for a text at
/// the given wrapping width; zero for empty text. A sizing pass and a
/// drawing pass that use the same width agree, because both follow the
/// cursor-advance rule captured by `wrap_cursor`.
pub fn compute_text_height(text: &str, wrapping_width: u16) -> (height: u16)
    requires
        text@.len() < 65535,
        text@.len() > 0 ==> wrapping_width >= 1,
    ensures
        height == text_height_spec(text@, wrapping_width as int),
{
    if text.is_empty() {
        return 0;
    }
    let words = split_words(text);
    let ghost lens = word_lens(words_of(text@));
    proof {
        lemma_words_lens(text@);
        lemma_words_count_le_len(text@);
        assert(forall|k: int| 0 <= k < lens.len() ==> 1 <= #[trigger] lens[k] < 65535);
    }
    let mut dx: usize = 0;
    let mut dy: usize = 0;
    let mut i: usize = 0;
    while i < words.len()
        invariant
            words.deep_view() == words_of(text@),
            lens == word_lens(words_of(text@)),
            forall|k: int| 0 <= k < lens.len() ==> 1 <= #[trigger] lens[k] < 65535,
            i <= words.len(),
            lens.len() == words.len(),
            (dx as int, dy as int) == wrap_cursor(lens.take(i as int), wrapping_width as int),
            dx <= wrapping_width + 65536,
            dy <= i,
        decreases words.len() - i,
    {
        let word_len = words[i].as_str().unicode_len();
        proof {
            assert(words.deep_view()[i as int] == words@[i as int]@);
            assert(lens[i as int] == word_len);
            assert(lens.take(i + 1).drop_last() =~= lens.take(i as int));
            assert(lens.take(i + 1).last() == lens[i as int]);
        }
        if dx + word_len > wrapping_width as usize {
            dy = dy + 1;
            dx = 0;
        }
        dx = dx + word_len + 1;
        i = i + 1;
    }
    proof {
        assert(lens.take(words.len() as int) =~= lens);
        lemma_wrap_cursor_bounds(lens, wrapping_width as int);
        assert(dy < 65535);
    }
    (dy + 1) as u16
}

} // verus!
