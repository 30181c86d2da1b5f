//! Editing a document: typing, deleting, breaking lines, and undoing.

use crate::display;
use crate::editor::{Editor, UndoAction, UndoEntry};
use crate::language::Language;
use crate::lines;
use crate::state;
use crate::state::{Change, Document, Undo, INDENT_WIDTH};
use crate::text;
use vstd::prelude::*;

verus! {

// ---------------------------------------------------------------------------
// Edits keep documents well formed
// ---------------------------------------------------------------------------

/// A history that fits still fits behind a change that fits.
proof fn lemma_recorded_fits(d: Document, change: Change, n: int)
    requires
        d.wf(),
        state::change_fits(n, change),
        state::lines_before(n, change) == d.lines.len(),
    ensures
        state::history_fits(n, d.recorded(change).history),
{
    let h = d.recorded(change).history;
    assert(h.drop_last() =~= d.history);
}

/// Typing keeps a document well formed.
pub proof fn law_typing_keeps_wf(d: Document, c: char)
    requires
        d.wf(),
    ensures
        d.inserted(c).wf(),
{
    let change = Change::InsertChar { y: d.cursor_y, x: d.cursor_x, ch: c };
    lemma_recorded_fits(d, change, d.lines.len() as int);
}

/// The backspace key keeps a document well formed.
pub proof fn law_backspace_keeps_wf(d: Document)
    requires
        d.wf(),
    ensures
        d.backspaced().wf(),
{
    let y = d.cursor_y;
    if d.can_backspace() {
        if d.cursor_x > 0 {
            let x = d.cursor_x - 1;
            let change = Change::DeleteChar { y, x, ch: d.line()[x] };
            lemma_recorded_fits(d, change, d.lines.len() as int);
        } else {
            let change = Change::JoinLines {
                y,
                x: d.lines[y - 1].len() as int,
                removed: d.line(),
            };
            lemma_recorded_fits(d, change, d.lines.len() - 1);
        }
    }
}

/// Breaking a line keeps a document well formed.
pub proof fn law_break_keeps_wf(d: Document)
    requires
        d.wf(),
    ensures
        d.broken().wf(),
{
    let change = Change::InsertNewline {
        y: d.cursor_y,
        x: d.cursor_x,
        right: d.line().skip(d.column()),
    };
    lemma_recorded_fits(d, change, d.lines.len() as int + 1);
}

/// Undoing keeps a document well formed.
pub proof fn law_undo_keeps_wf(d: Document)
    requires
        d.wf(),
    ensures
        d.undone().wf(),
{
    if d.history.len() > 0 {
        let u = d.history.last();
        assert(state::reverted(d.lines, u.change).len() == state::lines_before(
            d.lines.len() as int,
            u.change,
        ));
    }
}

proof fn lemma_marked_fits(n: int, history: Seq<Undo>)
    requires
        state::history_fits(n, history),
    ensures
        state::history_fits(n, state::marked(history)),
    decreases history.len(),
{
    if history.len() > 0 {
        assert(state::marked(history).drop_last() =~= state::marked(history.drop_last()));
        lemma_marked_fits(state::lines_before(n, history.last().change), history.drop_last());
    }
}

/// Saving keeps a document well formed.
pub proof fn law_saving_keeps_wf(d: Document)
    requires
        d.wf(),
    ensures
        d.saved().wf(),
{
    lemma_marked_fits(d.lines.len() as int, d.history);
}

proof fn lemma_leading_blanks(line: Seq<char>)
    ensures
        state::leading_blanks(line) <= line.len(),
    decreases line.len(),
{
    if line.len() > 0 && line[0] == ' ' {
        lemma_leading_blanks(line.drop_first());
    }
}

/// Takes a change to the lines back.
fn revert(lines: &mut Vec<String>, action: &UndoAction)
    requires
        state::change_fits(old(lines)@.len() as int, action@),
    ensures
        lines::contents(final(lines)@) == state::reverted(
            lines::contents(old(lines)@),
            action@,
        ),
{
    assert(lines@.len() == lines.len());
    let ghost before = lines::contents(lines@);
    match action {
        UndoAction::InsertChar { y, x, .. } => {
            let line = lines[*y].as_str();
            let n: usize = text::char_count(line);
            if *x < n {
                let mut kept = line.substring_char(0, *x).to_string();
                kept.append(line.substring_char(*x + 1, n));
                assert(kept@ =~= before[*y as int].remove(*x as int));
                lines.set(*y, kept);
                assert(lines::contents(lines@) =~= before.update(*y as int, kept@));
            }
        },
        UndoAction::DeleteChar { y, x, ch } => {
            let line = lines[*y].as_str();
            let n: usize = text::char_count(line);
            let col: usize = if *x < n {
                *x
            } else {
                n
            };
            let mut whole = line.substring_char(0, col).to_string();
            whole.push(*ch);
            whole.append(line.substring_char(col, n));
            assert(whole@ =~= before[*y as int].insert(col as int, *ch));
            lines.set(*y, whole);
            assert(lines::contents(lines@) =~= before.update(*y as int, whole@));
        },
        UndoAction::InsertNewline { y, right, .. } => {
            let _ = lines.remove(*y + 1);
            let mut whole = lines[*y].clone();
            whole.append(right.as_str());
            lines.set(*y, whole);
            assert(lines::contents(lines@) =~= before.remove(*y + 1).update(*y as int, whole@));
        },
        UndoAction::JoinLines { y, x, .. } => {
            let line = lines[*y - 1].as_str();
            let n: usize = text::char_count(line);
            let k: usize = if *x < n {
                *x
            } else {
                n
            };
            let left = line.substring_char(0, k).to_string();
            let right = line.substring_char(k, n).to_string();
            assert(left@ =~= before[*y - 1].take(k as int));
            assert(right@ =~= before[*y - 1].skip(k as int));
            lines.set(*y - 1, left);
            lines.insert(*y, right);
            assert(lines::contents(lines@) =~= before.update(*y - 1, left@).insert(
                *y as int,
                right@,
            ));
        },
    }
}

/// Where a screen `size` places long starts, so that `cursor` is on it.
fn scroll_to(offset: usize, cursor: usize, size: usize) -> (r: usize)
    ensures
        r == state::scrolled_to(offset as int, cursor as int, size as int),
{
    if cursor < offset {
        cursor
    } else if cursor - offset >= size {
        cursor.saturating_sub(size.saturating_sub(1))
    } else {
        offset
    }
}

/// Marks every entry of a history.
fn mark_all(stack: &mut Vec<UndoEntry>)
    ensures
        final(stack)@.len() == old(stack)@.len(),
        forall|i: int|
            0 <= i < final(stack)@.len() ==> (#[trigger] final(stack)@[i])@ == (Undo {
                dirty: true,
                ..old(stack)@[i]@
            }),
{
    let mut i: usize = 0;
    while i < stack.len()
        invariant
            i <= stack@.len(),
            stack@.len() == old(stack)@.len(),
            forall|j: int|
                0 <= j < i ==> (#[trigger] stack@[j])@ == (Undo { dirty: true, ..old(stack)@[j]@ }),
            forall|j: int| i <= j < stack@.len() ==> #[trigger] stack@[j] == old(stack)@[j],
        decreases stack@.len() - i,
    {
        stack[i].dirty = true;
        i = i + 1;
    }
}

impl Editor {
    /// Sets a change down in the history.
    pub fn push_undo(&mut self, action: UndoAction)
        ensures
            final(self)@ == old(self)@.with_doc(old(self)@.doc.recorded(action@)),
            final(self).lines == old(self).lines,
    {
        let ghost before = self@;
        self.undo_stack.push(
            UndoEntry {
                action,
                cursor_x: self.cursor_x,
                cursor_y: self.cursor_y,
                offset_x: self.offset_x,
                offset_y: self.offset_y,
                dirty: self.dirty,
            },
        );
        assert(self@.doc.history =~= before.doc.recorded(action@).history);
    }

    /// Notes that the file holds the text of the document.
    pub(crate) fn mark_saved(&mut self)
        requires
            old(self).wf(),
        ensures
            final(self).wf(),
            final(self)@ == old(self)@.with_doc(old(self)@.doc.saved()),
    {
        let ghost before = self@;
        proof {
            law_saving_keeps_wf(before.doc);
        }
        self.dirty = false;
        mark_all(&mut self.undo_stack);
        assert(self@.doc.history =~= state::marked(before.doc.history));
    }

    /// Types a character at the cursor.
    pub fn insert_char(&mut self, c: char)
        requires
            old(self).wf(),
            old(self).cursor_x < usize::MAX,
        ensures
            final(self).wf(),
            final(self)@ == old(self)@.with_doc(old(self)@.doc.inserted(c)),
    {
        let ghost before = self@;
        let y: usize = self.cursor_y;
        let x: usize = self.cursor_x;
        self.push_undo(UndoAction::InsertChar { y, x, ch: c });
        let line = self.lines[y].as_str();
        let n: usize = text::char_count(line);
        let col: usize = if x < n {
            x
        } else {
            n
        };
        let mut typed = line.substring_char(0, col).to_string();
        typed.push(c);
        typed.append(line.substring_char(col, n));
        assert(typed@ =~= before.doc.line().insert(col as int, c));
        self.lines.set(y, typed);
        self.cursor_x = self.cursor_x + 1;
        self.dirty = true;
        assert(self@.doc.lines =~= before.doc.inserted(c).lines);
        proof {
            law_typing_keeps_wf(before.doc, c);
        }
    }

    /// Takes away the character before the cursor or, at the start of a line, joins
    /// the line to the one above.
    pub fn backspace(&mut self)
        requires
            old(self).wf(),
        ensures
            final(self).wf(),
            final(self)@ == old(self)@.with_doc(old(self)@.doc.backspaced()),
    {
        let ghost before = self@;
        proof {
            law_backspace_keeps_wf(before.doc);
        }
        let y: usize = self.cursor_y;
        if self.cursor_x > 0 {
            let x: usize = self.cursor_x - 1;
            let n: usize = self.line_len(y);
            if x < n {
                let ch = self.lines[y].as_str().get_char(x);
                self.push_undo(UndoAction::DeleteChar { y, x, ch });
                let line = self.lines[y].as_str();
                let mut kept = line.substring_char(0, x).to_string();
                kept.append(line.substring_char(x + 1, n));
                assert(kept@ =~= before.doc.line().remove(x as int));
                self.lines.set(y, kept);
                self.cursor_x = x;
                self.dirty = true;
                assert(self@.doc.lines =~= before.doc.backspaced().lines);
            }
        } else if self.cursor_y > 0 {
            let x: usize = self.line_len(y - 1);
            let removed = self.lines[y].clone();
            self.push_undo(UndoAction::JoinLines { y, x, removed });
            let current = self.lines.remove(y);
            self.cursor_y = self.cursor_y - 1;
            let mut above = self.lines[y - 1].clone();
            above.append(current.as_str());
            self.lines.set(y - 1, above);
            self.cursor_x = x;
            self.dirty = true;
            assert(self@.doc.lines =~= before.doc.backspaced().lines);
        }
    }

    /// Number of blanks at the start of `line`.
    pub fn leading_indent(line: &str) -> (n: usize)
        ensures
            n == state::leading_blanks(line@),
    {
        let v = text::to_chars(line);
        let mut n: usize = 0;
        assert(line@.skip(0) =~= line@);
        while n < v.len() && v[n] == ' '
            invariant
                v@ == line@,
                n <= v@.len(),
                state::leading_blanks(line@) == n + state::leading_blanks(line@.skip(n as int)),
            decreases v@.len() - n,
        {
            assert(line@.skip(n as int).drop_first() =~= line@.skip(n + 1));
            n = n + 1;
        }
        n
    }

    /// The indentation of the line that starts with `right` when a line is broken
    /// behind `left`.
    pub fn compute_indent(&self, left: &str, right: &str) -> (n: usize)
        requires
            left@.len() + INDENT_WIDTH <= usize::MAX,
        ensures
            n == state::indent_after(self@.doc.language, left@, right@),
    {
        let base: usize = Self::leading_indent(left);
        proof {
            lemma_leading_blanks(left@);
        }
        let left_trim = text::trim_end(left);
        let right_trim = text::trim_start(right);
        match self.language {
            Language::Python => {
                let mut indent: usize = base;
                if text::ends_with(left_trim, ':') {
                    indent = indent + INDENT_WIDTH;
                }
                if text::starts_with(right_trim, "elif ") || text::starts_with(right_trim, "else:")
                    || text::starts_with(right_trim, "except") {
                    indent = indent.saturating_sub(INDENT_WIDTH);
                }
                indent
            },
            Language::C | Language::Rust => {
                let mut indent: usize = base;
                if text::ends_with(left_trim, '{') {
                    indent = indent + INDENT_WIDTH;
                }
                if text::char_count(right_trim) > 0 && right_trim.get_char(0) == '}' {
                    indent = indent.saturating_sub(INDENT_WIDTH);
                }
                indent
            },
            Language::PlainText | Language::Shell => base,
        }
    }

    /// Breaks the line at the cursor and indents the new line.
    pub fn insert_newline(&mut self)
        requires
            old(self).wf(),
            old(self)@.doc.line().len() + INDENT_WIDTH <= usize::MAX,
        ensures
            final(self).wf(),
            final(self)@ == old(self)@.with_doc(old(self)@.doc.broken()),
    {
        let ghost before = self@;
        let y: usize = self.cursor_y;
        let x: usize = self.cursor_x;
        assert(self.lines@.len() == self.lines.len());
        let n: usize = self.line_len(y);
        let col: usize = if x < n {
            x
        } else {
            n
        };
        let left = self.lines[y].as_str().substring_char(0, col).to_string();
        let right = self.lines[y].as_str().substring_char(col, n).to_string();
        assert(left@ =~= before.doc.line().take(col as int));
        assert(right@ =~= before.doc.line().skip(col as int));
        let indent: usize = self.compute_indent(left.as_str(), right.as_str());
        self.push_undo(UndoAction::InsertNewline { y, x, right: right.clone() });
        self.lines.set(y, left);
        let mut new_line = text::repeat_char(' ', indent);
        assert(new_line@ =~= display::blanks(indent as int));
        new_line.append(right.as_str());
        self.lines.insert(y + 1, new_line);
        self.cursor_y = self.cursor_y + 1;
        self.cursor_x = indent;
        self.dirty = true;
        assert(self@.doc.lines =~= before.doc.broken().lines);
        proof {
            law_break_keeps_wf(before.doc);
        }
    }

    /// Takes back the last change, and says whether there was one.
    pub fn undo(&mut self) -> (done: bool)
        requires
            old(self).wf(),
        ensures
            final(self).wf(),
            done == (old(self)@.doc.history.len() > 0),
            final(self)@ == (if done {
                old(self)@.with_doc(old(self)@.doc.undone()).fully_redrawn()
            } else {
                old(self)@
            }),
    {
        let ghost before = self@;
        proof {
            law_undo_keeps_wf(before.doc);
        }
        let entry = match self.undo_stack.pop() {
            Some(entry) => entry,
            None => {
                return false;
            },
        };
        assert(self@.doc.history =~= before.doc.history.drop_last());
        assert(entry@ == before.doc.history.last());
        revert(&mut self.lines, &entry.action);
        self.cursor_x = entry.cursor_x;
        self.cursor_y = entry.cursor_y;
        self.offset_x = entry.offset_x;
        self.offset_y = entry.offset_y;
        self.dirty = entry.dirty;
        self.request_full_redraw();
        true
    }

    /// The first place at which the document holds `query`: a line, and the character
    /// on it at which the match starts.
    pub fn find_first(&self, query: &str) -> (place: Option<(usize, usize)>)
        ensures
            match place {
                Some((y, x)) => self@.doc.first_match(query@, 0) == Some((y as int, x as int)) && y
                    < self@.doc.lines.len(),
                None => self@.doc.first_match(query@, 0) is None,
            },
    {
        let q = text::to_chars(query);
        let mut y: usize = 0;
        while y < self.lines.len()
            invariant
                q@ == query@,
                y <= self.lines@.len(),
                self@.doc.first_match(query@, 0) == self@.doc.first_match(query@, y as int),
            decreases self.lines@.len() - y,
        {
            let line = text::to_chars(self.lines[y].as_str());
            if let Some(x) = text::find(&line, &q, 0) {
                return Some((y, x));
            }
            y = y + 1;
        }
        None
    }

    /// Moves the screen so that the cursor is on it.
    pub fn update_scroll(&mut self, width: usize, height: usize)
        ensures
            final(self)@ == old(self)@.with_doc(
                old(self)@.doc.scrolled(width as int, height as int),
            ),
            final(self).lines == old(self).lines,
    {
        let text_rows: usize = height.saturating_sub(1);
        self.offset_y = scroll_to(self.offset_y, self.cursor_y, text_rows);
        self.offset_x = scroll_to(self.offset_x, self.cursor_x, width);
    }
}

} // verus!
