//! What holds of the editor as a whole.

use crate::display;
use crate::edit;
use crate::language::Language;
use crate::lines;
use crate::state;
use crate::state::{Change, Document, EditorState, INDENT_WIDTH};
use crate::text;
use vstd::prelude::*;

verus! {

// ---------------------------------------------------------------------------
// Undoing
// ---------------------------------------------------------------------------

/// A keystroke that edits the document.
pub enum Edit {
    Type(char),
    Backspace,
    Break,
}

impl Document {
    /// The cursor is not beyond the end of its line.
    pub open spec fn cursor_in_line(self) -> bool {
        self.cursor_x <= self.line().len()
    }

    /// The document after an edit.
    pub open spec fn edited(self, e: Edit) -> Document {
        match e {
            Edit::Type(c) => self.inserted(c),
            Edit::Backspace => self.backspaced(),
            Edit::Break => self.broken(),
        }
    }

    /// The edit changes the document, and finds its place: there is something for the
    /// backspace key to take away, and a character is typed within its line.
    pub open spec fn reversible(self, e: Edit) -> bool {
        match e {
            Edit::Type(_) => self.cursor_in_line(),
            Edit::Backspace => self.can_backspace(),
            Edit::Break => true,
        }
    }

    /// The document after a series of edits.
    pub open spec fn edited_by(self, edits: Seq<Edit>) -> Document
        decreases edits.len(),
    {
        if edits.len() == 0 {
            self
        } else {
            self.edited_by(edits.drop_last()).edited(edits.last())
        }
    }

    /// Every edit of a series is reversible where it is made.
    pub open spec fn all_reversible(self, edits: Seq<Edit>) -> bool
        decreases edits.len(),
    {
        edits.len() > 0 ==> self.all_reversible(edits.drop_last()) && self.edited_by(
            edits.drop_last(),
        ).reversible(edits.last())
    }

    /// The document with its last `n` changes taken back, one after the other.
    pub open spec fn undone_times(self, n: nat) -> Document
        decreases n,
    {
        if n == 0 {
            self
        } else {
            self.undone().undone_times((n - 1) as nat)
        }
    }
}

/// Undoing takes a typed character back: the document is what it was, with its text,
/// its cursor, its place on the screen, its mark of unsaved changes and its history.
pub proof fn law_undo_typing(d: Document, c: char)
    requires
        d.wf(),
        d.cursor_in_line(),
    ensures
        d.inserted(c).undone() == d,
{
    let e = d.inserted(c);
    let y = d.cursor_y;
    assert(e.history.drop_last() =~= d.history);
    assert(e.lines[y].remove(d.cursor_x) =~= d.lines[y]);
    assert(e.undone().lines =~= d.lines);
}

/// Undoing takes the backspace key back, where it joined lines too.
pub proof fn law_undo_backspace(d: Document)
    requires
        d.wf(),
        d.can_backspace(),
    ensures
        d.backspaced().undone() == d,
{
    let e = d.backspaced();
    let y = d.cursor_y;
    if d.cursor_x > 0 {
        let x = d.cursor_x - 1;
        text::lemma_char_range(d.line()[x]);
        let change = Change::DeleteChar { y, x, ch: d.line()[x] };
        assert(e.history == d.recorded(change).history);
        assert(e.history.drop_last() =~= d.history);
        assert(e.lines[y].insert(x, d.line()[x]) =~= d.lines[y]);
        assert(e.undone().lines =~= d.lines);
    } else {
        let above = d.lines[y - 1];
        let whole = above + d.line();
        let x = above.len() as int;
        let change = Change::JoinLines { y, x, removed: d.line() };
        assert(e.history == d.recorded(change).history);
        assert(e.history.drop_last() =~= d.history);
        assert(whole.take(x) =~= above);
        assert(whole.skip(x) =~= d.line());
        assert(e.lines[y - 1] == whole);
        assert(e.undone().lines =~= d.lines);
    }
}

/// Undoing takes a line break back, with the indentation that it brought.
pub proof fn law_undo_break(d: Document)
    requires
        d.wf(),
    ensures
        d.broken().undone() == d,
{
    let e = d.broken();
    let y = d.cursor_y;
    assert(e.history.drop_last() =~= d.history);
    assert(d.line().take(d.column()) + d.line().skip(d.column()) =~= d.line());
    assert(e.lines[y] == d.line().take(d.column()));
    assert(e.undone().lines =~= d.lines);
}

/// Each edit of a series leaves one change to undo, and as many undos as edits give the
/// document back that was edited.
pub proof fn law_undo_all(d: Document, edits: Seq<Edit>)
    requires
        d.wf(),
        d.all_reversible(edits),
    ensures
        d.edited_by(edits).wf(),
        d.edited_by(edits).history.len() == d.history.len() + edits.len(),
        d.edited_by(edits).undone_times(edits.len()) == d,
    decreases edits.len(),
{
    if edits.len() > 0 {
        let before = d.edited_by(edits.drop_last());
        law_undo_all(d, edits.drop_last());
        match edits.last() {
            Edit::Type(c) => {
                law_undo_typing(before, c);
                edit::law_typing_keeps_wf(before, c);
            },
            Edit::Backspace => {
                law_undo_backspace(before);
                edit::law_backspace_keeps_wf(before);
            },
            Edit::Break => {
                law_undo_break(before);
                edit::law_break_keeps_wf(before);
            },
        }
        assert(d.edited_by(edits).undone() == before);
    }
}

/// The backspace key takes a typed character away: text and cursor are what they were,
/// and the history has both changes.
pub proof fn law_backspace_takes_typed(d: Document, c: char)
    requires
        d.wf(),
        d.cursor_in_line(),
    ensures
        d.inserted(c).can_backspace(),
        d.inserted(c).backspaced().lines == d.lines,
        d.inserted(c).backspaced().cursor_x == d.cursor_x,
        d.inserted(c).backspaced().cursor_y == d.cursor_y,
        d.inserted(c).backspaced().dirty,
        d.inserted(c).backspaced().history.len() == d.history.len() + 2,
        d.inserted(c).backspaced().history.take(d.history.len() as int) == d.history,
{
    let e = d.inserted(c);
    let y = d.cursor_y;
    assert(e.line().remove(d.cursor_x) =~= d.line());
    assert(e.backspaced().lines =~= d.lines);
}

/// A new line is indented as the line before it, or one step more or less; one step
/// more only behind the opening of a block, and as the line before it in a language
/// without blocks.
pub proof fn law_indent_steps(language: Language, left: Seq<char>, right: Seq<char>)
    ensures
        ({
            let base = state::leading_blanks(left) as int;
            let indent = state::indent_after(language, left, right);
            &&& indent == base || indent == base + INDENT_WIDTH || indent == text::max(
                base - INDENT_WIDTH,
                0,
            )
            &&& indent > base ==> indent == base + INDENT_WIDTH && state::opens_block(
                language,
                left,
            )
            &&& language == Language::PlainText || language == Language::Shell ==> indent == base
        }),
{
}

/// Editing keeps the cursor within its line.
pub proof fn law_edits_keep_cursor_in_line(d: Document, e: Edit)
    requires
        d.wf(),
        d.cursor_in_line(),
    ensures
        d.edited(e).cursor_in_line(),
{
}

/// Breaking a line loses nothing: what stood behind the cursor stands behind the
/// indentation of the new line.
pub proof fn law_break_keeps_text(d: Document)
    requires
        d.wf(),
    ensures
        d.broken().lines[d.cursor_y] + d.broken().lines[d.cursor_y + 1].skip(d.broken().cursor_x)
            == d.line(),
        d.broken().lines[d.cursor_y + 1].take(d.broken().cursor_x) == display::blanks(
            d.broken().cursor_x,
        ),
{
    let indent = d.broken().cursor_x;
    let right = d.line().skip(d.column());
    let new_line = display::blanks(indent) + right;
    assert(d.broken().lines[d.cursor_y + 1] == new_line);
    assert(new_line.skip(indent) =~= right);
    assert(new_line.take(indent) =~= display::blanks(indent));
    assert(d.line().take(d.column()) + right =~= d.line());
}

/// An edit that changes the text marks the document as changed.
pub proof fn law_edits_mark_changes(d: Document, e: Edit)
    ensures
        d.edited(e).lines != d.lines ==> d.edited(e).dirty,
{
}

// ---------------------------------------------------------------------------
// Saving and opening
// ---------------------------------------------------------------------------

/// Lines that a file keeps: no line holds a line feed, none but the last ends in a
/// carriage return, and the last of several lines is not empty.
pub open spec fn kept_by_file(lines: Seq<Seq<char>>) -> bool {
    &&& lines.len() > 0
    &&& forall|i: int, j: int|
        0 <= i < lines.len() && 0 <= j < lines[i].len() ==> #[trigger] lines[i][j] != '\n'
    &&& forall|i: int|
        0 <= i < lines.len() - 1 && (#[trigger] lines[i]).len() > 0 ==> lines[i].last() != '\r'
    &&& lines.len() > 1 ==> lines.last().len() > 0
}

/// Opening a file gives back the lines that were saved to it.
pub proof fn law_saved_file_reopens(
    filename: Seq<char>,
    language: Language,
    lines: Seq<Seq<char>>,
    key_file: Option<Seq<char>>,
)
    requires
        kept_by_file(lines),
    ensures
        EditorState::opened(
            filename,
            language,
            Some(lines::joined(lines)),
            key_file,
        ).doc.lines == lines,
{
    if lines.len() == 1 && lines[0].len() == 0 {
        assert(lines[0] =~= Seq::<char>::empty());
        assert(lines =~= seq![Seq::<char>::empty()]);
        assert(lines::joined(lines).len() == 0);
    } else {
        lemma_split_joined(lines);
    }
}

proof fn lemma_split_joined(lines: Seq<Seq<char>>)
    requires
        kept_by_file(lines),
        lines.last().len() > 0,
    ensures
        lines::split(lines::joined(lines)) == lines,
    decreases lines.len(),
{
    let s = lines::joined(lines);
    let first = lines[0];
    let n = first.len() as int;
    assert forall|j: int| 0 <= j < n implies #[trigger] s[j] != '\n' by {
        assert(s[j] == lines[0][j]);
    }
    lines::lemma_line_end_is(s, n);
    if lines.len() == 1 {
        assert(lines =~= seq![s]);
    } else {
        let rest = lines.drop_first();
        assert(kept_by_file(rest)) by {
            assert forall|i: int, j: int|
                0 <= i < rest.len() && 0 <= j < rest[i].len() implies #[trigger] rest[i][j]
                != '\n' by {
                assert(rest[i][j] == lines[i + 1][j]);
            }
            assert forall|i: int|
                0 <= i < rest.len() - 1 && (#[trigger] rest[i]).len() > 0 implies rest[i].last()
                != '\r' by {
                assert(rest[i] == lines[i + 1]);
            }
        }
        lemma_split_joined(rest);
        assert(s.take(n) =~= first);
        assert(s.skip(n + 1) =~= lines::joined(rest));
        assert(seq![first] + rest =~= lines);
    }
}

// ---------------------------------------------------------------------------
// The screen
// ---------------------------------------------------------------------------

/// After scrolling, the cursor is on the screen, if the screen has room for it.
pub proof fn law_cursor_on_screen(d: Document, width: int, height: int)
    requires
        d.wf(),
        width >= 1,
        height >= 2,
    ensures
        d.scrolled(width, height).offset_y <= d.cursor_y < d.scrolled(width, height).offset_y
            + height - 1,
        d.scrolled(width, height).offset_x <= d.cursor_x < d.scrolled(width, height).offset_x
            + width,
{
}

/// A screen that was scrolled stays where it is when it is scrolled again.
pub proof fn law_scroll_once(d: Document, width: int, height: int)
    requires
        d.wf(),
        width >= 0,
        height >= 0,
    ensures
        d.scrolled(width, height).scrolled(width, height) == d.scrolled(width, height),
{
}

/// A text cut and filled to a width is exactly that wide.
pub proof fn law_fitted_width(s: Seq<char>, width: nat)
    ensures
        display::padded(display::truncated(s, width as int), width as int).len() == width,
{
}

/// What is shown holds no control character but tabs and line ends.
pub proof fn law_shown_is_safe(s: Seq<char>)
    ensures
        forall|i: int|
            0 <= i < display::sanitized(s).len() ==> {
                let c = #[trigger] display::sanitized(s)[i];
                !text::control(c) || c == '\t' || c == '\n' || c == '\r'
            },
    decreases s.len(),
{
    if s.len() > 0 {
        let tail = s.drop_first();
        law_shown_is_safe(tail);
        lemma_sanitized_first(s);
        let head = display::shown(s[0]);
        assert forall|i: int| 0 <= i < display::sanitized(s).len() implies ({
            let c = #[trigger] display::sanitized(s)[i];
            !text::control(c) || c == '\t' || c == '\n' || c == '\r'
        }) by {
            if i < head.len() {
                assert(display::sanitized(s)[i] == head[i]);
            } else {
                assert(display::sanitized(s)[i] == display::sanitized(tail)[i - head.len()]);
            }
        }
    }
}

proof fn lemma_sanitized_first(s: Seq<char>)
    requires
        s.len() > 0,
    ensures
        display::sanitized(s) == display::shown(s[0]) + display::sanitized(s.drop_first()),
{
    let f = |c: char| display::shown(c);
    assert(s.map_values(f).drop_first() =~= s.drop_first().map_values(f));
}

/// What is shown does not change when it is made fit to be shown once more.
pub proof fn law_sanitize_once(s: Seq<char>)
    ensures
        display::sanitized(display::sanitized(s)) == display::sanitized(s),
    decreases s.len(),
{
    if s.len() == 0 {
        assert(display::sanitized(s) =~= Seq::<char>::empty());
        assert(display::sanitized(Seq::<char>::empty()) =~= Seq::<char>::empty());
    } else {
        let head = display::shown(s[0]);
        let tail = display::sanitized(s.drop_first());
        lemma_sanitized_first(s);
        law_sanitize_once(s.drop_first());
        if head.len() == 0 {
            assert(head + tail =~= tail);
        } else {
            let t = head + tail;
            lemma_sanitized_first(t);
            assert(t.drop_first() =~= tail);
            assert(t[0] == head[0]);
            assert(display::shown(head[0]) =~= head);
        }
    }
}

/// Showing two texts one behind the other is showing them together.
pub proof fn law_sanitize_concat(a: Seq<char>, b: Seq<char>)
    ensures
        display::sanitized(a + b) == display::sanitized(a) + display::sanitized(b),
    decreases a.len(),
{
    if a.len() == 0 {
        assert(a + b =~= b);
        assert(display::sanitized(a) =~= Seq::<char>::empty());
    } else {
        lemma_sanitized_first(a);
        lemma_sanitized_first(a + b);
        assert((a + b).drop_first() =~= a.drop_first() + b);
        law_sanitize_concat(a.drop_first(), b);
        assert(display::sanitized(a + b) =~= display::sanitized(a) + display::sanitized(b));
    }
}

} // verus!
