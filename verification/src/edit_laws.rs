//! What each edit does to the lines, the cursor and the mark of a document, line by line
//! and character by character.

use crate::language::Language;
use crate::state;
use crate::state::{Change, Document, Undo};
use crate::text;
use crate::text_laws;
use vstd::prelude::*;

verus! {

// ---------------------------------------------------------------------------
// Typing and taking away
// ---------------------------------------------------------------------------

/// Typing puts the character between what stands before the cursor and what stands
/// behind it, or at the end of the line if the cursor is beyond it. The cursor moves
/// behind the character; no other line changes.
pub proof fn law_typing_at_cursor(d: Document, c: char)
    requires
        0 <= d.cursor_y < d.lines.len(),
        0 <= d.cursor_x,
    ensures
        d.inserted(c).lines.len() == d.lines.len(),
        d.cursor_x <= d.lines[d.cursor_y].len() ==> d.inserted(c).lines[d.cursor_y]
            == d.lines[d.cursor_y].take(d.cursor_x).push(c) + d.lines[d.cursor_y].skip(d.cursor_x),
        d.cursor_x > d.lines[d.cursor_y].len() ==> d.inserted(c).lines[d.cursor_y]
            == d.lines[d.cursor_y].push(c),
        forall|i: int|
            0 <= i < d.lines.len() && i != d.cursor_y ==> #[trigger] d.inserted(c).lines[i]
                == d.lines[i],
        d.inserted(c).cursor_y == d.cursor_y,
        d.inserted(c).cursor_x == d.cursor_x + 1,
        d.inserted(c).offset_x == d.offset_x,
        d.inserted(c).offset_y == d.offset_y,
        d.inserted(c).language == d.language,
        d.inserted(c).dirty,
        d.inserted(c).history.len() == d.history.len() + 1,
        d.inserted(c).history.drop_last() == d.history,
{
    let line = d.lines[d.cursor_y];
    if d.cursor_x <= line.len() {
        assert(d.inserted(c).lines[d.cursor_y] =~= line.take(d.cursor_x).push(c) + line.skip(
            d.cursor_x,
        ));
    } else {
        assert(d.inserted(c).lines[d.cursor_y] =~= line.push(c));
    }
}

/// Within a line, the backspace key takes the character before the cursor away, and the
/// cursor moves to its place; no other line changes.
pub proof fn law_backspace_before_cursor(d: Document)
    requires
        0 <= d.cursor_y < d.lines.len(),
        0 < d.cursor_x <= d.lines[d.cursor_y].len(),
    ensures
        d.backspaced().lines.len() == d.lines.len(),
        d.backspaced().lines[d.cursor_y] == d.lines[d.cursor_y].take(d.cursor_x - 1)
            + d.lines[d.cursor_y].skip(d.cursor_x),
        forall|i: int|
            0 <= i < d.lines.len() && i != d.cursor_y ==> #[trigger] d.backspaced().lines[i]
                == d.lines[i],
        d.backspaced().cursor_y == d.cursor_y,
        d.backspaced().cursor_x == d.cursor_x - 1,
        d.backspaced().offset_x == d.offset_x,
        d.backspaced().offset_y == d.offset_y,
        d.backspaced().language == d.language,
        d.backspaced().dirty,
        d.backspaced().history.len() == d.history.len() + 1,
        d.backspaced().history.drop_last() == d.history,
{
    let line = d.lines[d.cursor_y];
    text::lemma_char_range(line[d.cursor_x - 1]);
    assert(d.backspaced().lines[d.cursor_y] =~= line.take(d.cursor_x - 1) + line.skip(d.cursor_x));
}

/// At the start of a line, the backspace key puts that line behind the one above it,
/// with the cursor between the two; the lines below move up, and no other line changes.
pub proof fn law_backspace_joins(d: Document)
    requires
        0 < d.cursor_y < d.lines.len(),
        d.cursor_x == 0,
    ensures
        d.backspaced().lines.len() == d.lines.len() - 1,
        d.backspaced().lines[d.cursor_y - 1] == d.lines[d.cursor_y - 1] + d.lines[d.cursor_y],
        forall|i: int|
            0 <= i < d.cursor_y - 1 ==> #[trigger] d.backspaced().lines[i] == d.lines[i],
        forall|i: int|
            d.cursor_y <= i < d.lines.len() - 1 ==> #[trigger] d.backspaced().lines[i]
                == d.lines[i + 1],
        d.backspaced().cursor_y == d.cursor_y - 1,
        d.backspaced().cursor_x == d.lines[d.cursor_y - 1].len(),
        d.backspaced().offset_x == d.offset_x,
        d.backspaced().offset_y == d.offset_y,
        d.backspaced().language == d.language,
        d.backspaced().dirty,
        d.backspaced().history.len() == d.history.len() + 1,
        d.backspaced().history.drop_last() == d.history,
{
}

/// At the start of the document, and beyond the end of a line, the backspace key does
/// nothing.
pub proof fn law_backspace_without_aim(d: Document)
    requires
        (d.cursor_x == 0 && d.cursor_y == 0) || d.cursor_x > d.lines[d.cursor_y].len(),
    ensures
        d.backspaced() == d,
{
}

// ---------------------------------------------------------------------------
// Breaking lines
// ---------------------------------------------------------------------------

/// A line is broken at the cursor, in every language: what stood before the cursor stays
/// on the line, and what stood behind it stands on a new line below, behind blanks. The
/// cursor stands behind those blanks; the lines below move down, and no other line
/// changes.
pub proof fn law_break_at_cursor(d: Document)
    requires
        0 <= d.cursor_y < d.lines.len(),
        0 <= d.cursor_x <= d.lines[d.cursor_y].len(),
    ensures
        d.broken().lines.len() == d.lines.len() + 1,
        d.broken().lines[d.cursor_y] == d.lines[d.cursor_y].take(d.cursor_x),
        0 <= d.broken().cursor_x <= d.broken().lines[d.cursor_y + 1].len(),
        d.broken().lines[d.cursor_y + 1].skip(d.broken().cursor_x) == d.lines[d.cursor_y].skip(
            d.cursor_x,
        ),
        forall|i: int|
            0 <= i < d.broken().cursor_x ==> #[trigger] d.broken().lines[d.cursor_y + 1][i] == ' ',
        d.broken().cursor_x == state::indent_after(
            d.language,
            d.lines[d.cursor_y].take(d.cursor_x),
            d.lines[d.cursor_y].skip(d.cursor_x),
        ),
        d.broken().cursor_y == d.cursor_y + 1,
        forall|i: int| 0 <= i < d.cursor_y ==> #[trigger] d.broken().lines[i] == d.lines[i],
        forall|i: int|
            d.cursor_y + 1 < i < d.lines.len() + 1 ==> #[trigger] d.broken().lines[i] == d.lines[i
                - 1],
        d.broken().offset_x == d.offset_x,
        d.broken().offset_y == d.offset_y,
        d.broken().language == d.language,
        d.broken().dirty,
        d.broken().history.len() == d.history.len() + 1,
        d.broken().history.drop_last() == d.history,
{
    let line = d.lines[d.cursor_y];
    assert(d.broken().lines[d.cursor_y + 1].skip(d.broken().cursor_x) =~= line.skip(d.cursor_x));
}

/// Beyond the end of a line, it is broken at its end.
pub proof fn law_break_beyond_end(d: Document)
    requires
        0 <= d.cursor_y < d.lines.len(),
        d.lines[d.cursor_y].len() < d.cursor_x,
    ensures
        d.broken().lines == d.at(d.cursor_y, d.lines[d.cursor_y].len() as int).broken().lines,
        d.broken().cursor_x == d.at(
            d.cursor_y,
            d.lines[d.cursor_y].len() as int,
        ).broken().cursor_x,
        d.broken().cursor_y == d.cursor_y + 1,
{
}

/// `n` is the number of blanks at the start of `line`.
pub open spec fn starts_with_blanks(line: Seq<char>, n: int) -> bool {
    &&& 0 <= n <= line.len()
    &&& forall|i: int| 0 <= i < n ==> #[trigger] line[i] == ' '
    &&& n < line.len() ==> line[n] != ' '
}

/// The last character of `line` that is no white space is `mark`.
pub open spec fn ends_in(line: Seq<char>, mark: char) -> bool {
    exists|k: int|
        0 <= k < line.len() && #[trigger] line[k] == mark && forall|j: int|
            k < j < line.len() ==> text::whitespace(#[trigger] line[j])
}

/// What follows the white space at the start of `line` starts with `word`.
pub open spec fn starts_in(line: Seq<char>, word: Seq<char>) -> bool {
    exists|k: int|
        0 <= k && k + word.len() <= line.len() && #[trigger] line.subrange(k, k + word.len())
            == word && forall|j: int| 0 <= j < k ==> text::whitespace(#[trigger] line[j])
}

/// The blanks counted at the start of a line are those up to the first other character.
pub proof fn law_leading_blanks(line: Seq<char>)
    ensures
        starts_with_blanks(line, state::leading_blanks(line) as int),
    decreases line.len(),
{
    if line.len() > 0 && line[0] == ' ' {
        let rest = line.drop_first();
        law_leading_blanks(rest);
        let n = state::leading_blanks(line) as int;
        assert forall|i: int| 0 <= i < n implies #[trigger] line[i] == ' ' by {
            if i > 0 {
                assert(rest[i - 1] == line[i]);
            }
        }
        if n < line.len() {
            assert(rest[n - 1] == line[n]);
        }
    }
}

proof fn lemma_ends_in(line: Seq<char>, mark: char)
    requires
        !text::whitespace(mark),
    ensures
        ends_in(line, mark) <==> (text::trimmed_end(line).len() > 0 && text::trimmed_end(
            line,
        ).last() == mark),
{
    text_laws::law_trimmed_end_parts(line);
    let t = text::trimmed_end(line);
    let n = t.len() as int;
    if t.len() > 0 && t.last() == mark {
        assert(line[n - 1] == mark);
    }
    if ends_in(line, mark) {
        let k = choose|k: int|
            0 <= k < line.len() && #[trigger] line[k] == mark && forall|j: int|
                k < j < line.len() ==> text::whitespace(#[trigger] line[j]);
        if n <= k {
            assert(text::whitespace(line[k]));
        } else if k < n - 1 {
            assert(text::whitespace(line[n - 1]));
            assert(t.last() == line[n - 1]);
        }
    }
}

proof fn lemma_starts_in(line: Seq<char>, word: Seq<char>)
    requires
        word.len() > 0,
        !text::whitespace(word[0]),
    ensures
        starts_in(line, word) <==> text::has_prefix(text::trimmed_start(line), word),
{
    text_laws::law_trimmed_start_parts(line);
    let t = text::trimmed_start(line);
    let n = line.len() - t.len();
    if text::has_prefix(t, word) {
        assert(line.subrange(n, n + word.len()) =~= t.take(word.len() as int));
    }
    if starts_in(line, word) {
        let k = choose|k: int|
            0 <= k && k + word.len() <= line.len() && #[trigger] line.subrange(k, k + word.len())
                == word && forall|j: int| 0 <= j < k ==> text::whitespace(#[trigger] line[j]);
        assert(line.subrange(k, k + word.len())[0] == line[k]);
        if k < n {
            assert(text::whitespace(line[k]));
        } else if n < k {
            assert(text::whitespace(line[n]));
            assert(t[0] == line[n]);
        }
        assert(t.take(word.len() as int) =~= line.subrange(k, k + word.len()));
    }
}

/// The indentation behind a break in Python: the blanks at the start of the line, four
/// more if the line so far ends in a colon, and four less, as far as there are four, if
/// what follows starts with `elif `, `else:` or `except`.
pub proof fn law_python_indent(left: Seq<char>, right: Seq<char>, base: int)
    requires
        starts_with_blanks(left, base),
    ensures
        ({
            let opened = if ends_in(left, ':') {
                base + 4
            } else {
                base
            };
            state::indent_after(Language::Python, left, right) == (if starts_in(right, "elif "@)
                || starts_in(right, "else:"@) || starts_in(right, "except"@) {
                if opened >= 4 {
                    opened - 4
                } else {
                    0
                }
            } else {
                opened
            })
        }),
{
    reveal_strlit("elif ");
    reveal_strlit("else:");
    reveal_strlit("except");
    lemma_blanks_once(left, base);
    lemma_ends_in(left, ':');
    lemma_starts_in(right, "elif "@);
    lemma_starts_in(right, "else:"@);
    lemma_starts_in(right, "except"@);
}

/// The indentation behind a break in C and Rust: the blanks at the start of the line,
/// four more if the line so far ends in an opening brace, and four less, as far as there
/// are four, if what follows starts with a closing one.
pub proof fn law_brace_indent(language: Language, left: Seq<char>, right: Seq<char>, base: int)
    requires
        language == Language::C || language == Language::Rust,
        starts_with_blanks(left, base),
    ensures
        ({
            let opened = if ends_in(left, '{') {
                base + 4
            } else {
                base
            };
            state::indent_after(language, left, right) == (if starts_in(right, seq!['}']) {
                if opened >= 4 {
                    opened - 4
                } else {
                    0
                }
            } else {
                opened
            })
        }),
{
    lemma_blanks_once(left, base);
    lemma_ends_in(left, '{');
    lemma_starts_in(right, seq!['}']);
    let t = text::trimmed_start(right);
    if t.len() > 0 {
        assert(t.take(1) =~= seq![t[0]]);
        assert(t.take(1)[0] == t[0]);
        assert(seq!['}'][0] == '}');
    }
}

/// The indentation behind a break in plain text and shell scripts: the blanks at the
/// start of the line.
pub proof fn law_plain_indent(language: Language, left: Seq<char>, right: Seq<char>, base: int)
    requires
        language == Language::PlainText || language == Language::Shell,
        starts_with_blanks(left, base),
    ensures
        state::indent_after(language, left, right) == base,
{
    lemma_blanks_once(left, base);
}

proof fn lemma_blanks_once(line: Seq<char>, n: int)
    requires
        starts_with_blanks(line, n),
    ensures
        state::leading_blanks(line) == n,
{
    law_leading_blanks(line);
    let m = state::leading_blanks(line) as int;
    if m < n {
        assert(line[m] == ' ');
    } else if n < m {
        assert(line[n] == ' ');
    }
}

// ---------------------------------------------------------------------------
// Undoing, saving, moving
// ---------------------------------------------------------------------------

/// What undoing leads to does not depend on where the cursor and the screen have moved
/// since, nor on the mark.
pub proof fn law_undo_ignores_place(d: Document, e: Document)
    requires
        d.history.len() > 0,
        e.lines == d.lines,
        e.history == d.history,
        e.language == d.language,
    ensures
        e.undone() == d.undone(),
{
}

/// Undoing goes back one entry of the history: to the place and the mark of that entry.
pub proof fn law_undo_goes_back(d: Document)
    requires
        d.history.len() > 0,
    ensures
        d.undone().history == d.history.drop_last(),
        d.undone().cursor_x == d.history.last().cursor_x,
        d.undone().cursor_y == d.history.last().cursor_y,
        d.undone().offset_x == d.history.last().offset_x,
        d.undone().offset_y == d.history.last().offset_y,
        d.undone().dirty == d.history.last().dirty,
        d.undone().language == d.language,
{
}

/// Without a history, undoing does nothing.
pub proof fn law_nothing_to_undo(d: Document)
    requires
        d.history.len() == 0,
    ensures
        d.undone() == d,
{
}

/// Setting a change down keeps where the document stood, and changes nothing else.
pub proof fn law_recording(d: Document, change: Change)
    ensures
        d.recorded(change) == (Document {
            history: d.history.push(
                Undo {
                    change,
                    cursor_x: d.cursor_x,
                    cursor_y: d.cursor_y,
                    offset_x: d.offset_x,
                    offset_y: d.offset_y,
                    dirty: d.dirty,
                },
            ),
            ..d
        }),
{
}

/// Saving takes the mark away and changes neither the text nor a place, nor what undoing
/// makes of the text.
pub proof fn law_saving_keeps_text(d: Document)
    ensures
        d.saved().lines == d.lines,
        d.saved().cursor_x == d.cursor_x,
        d.saved().cursor_y == d.cursor_y,
        d.saved().offset_x == d.offset_x,
        d.saved().offset_y == d.offset_y,
        d.saved().language == d.language,
        !d.saved().dirty,
        d.saved().history.len() == d.history.len(),
        forall|i: int|
            0 <= i < d.history.len() ==> #[trigger] d.saved().history[i] == (Undo {
                dirty: true,
                ..d.history[i]
            }),
{
}

/// The screen moves no further than it has to: not at all if the cursor is on it, to the
/// cursor if that stands before it, and so that the cursor is the last on it if that
/// stands behind it. Nothing else changes.
pub proof fn law_scroll_is_least(d: Document, width: int, height: int)
    requires
        d.wf(),
        width >= 1,
        height >= 2,
    ensures
        d.scrolled(width, height) == (Document {
            offset_x: d.scrolled(width, height).offset_x,
            offset_y: d.scrolled(width, height).offset_y,
            ..d
        }),
        d.cursor_y < d.offset_y ==> d.scrolled(width, height).offset_y == d.cursor_y,
        d.offset_y <= d.cursor_y < d.offset_y + height - 1 ==> d.scrolled(width, height).offset_y
            == d.offset_y,
        d.cursor_y >= d.offset_y + height - 1 ==> d.scrolled(width, height).offset_y == d.cursor_y
            - (height - 2),
        d.cursor_x < d.offset_x ==> d.scrolled(width, height).offset_x == d.cursor_x,
        d.offset_x <= d.cursor_x < d.offset_x + width ==> d.scrolled(width, height).offset_x
            == d.offset_x,
        d.cursor_x >= d.offset_x + width ==> d.scrolled(width, height).offset_x == d.cursor_x - (
        width - 1),
{
}

/// On a screen without room for text, or without columns, a cursor that is not before
/// the screen becomes its start.
pub proof fn law_scroll_without_room(d: Document, width: int, height: int)
    requires
        d.wf(),
        width >= 0,
        height >= 0,
    ensures
        height <= 1 ==> d.scrolled(width, height).offset_y == d.cursor_y,
        width == 0 ==> d.scrolled(width, height).offset_x == d.cursor_x,
{
}

} // verus!
