//! What an editor is: the document under edit with its history, and the dialogs,
//! messages and screen memory around it.

use crate::display;
use crate::groq;
use crate::language::Language;
use crate::lines;
use crate::text;
use vstd::prelude::*;

verus! {

pub const SEARCH_STATUS_SECONDS: u64 = 5;

pub const MESSAGE_STATUS_SECONDS: u64 = 3;

pub const AI_STATUS_SECONDS: u64 = 9;

pub const POLL_FALLBACK_MS: u64 = 250;

pub const INDENT_WIDTH: usize = 4;

pub const NANOS_PER_SECOND: u64 = 1_000_000_000;

pub const NANOS_PER_MS: u64 = 1_000_000;

/// What the keyboard is for.
#[derive(Clone, Copy, PartialEq, Eq, Debug, Structural)]
pub enum InputMode {
    Insert,
    Command,
    AwaitGroqKey,
}

/// One change to the lines of a document, as the history keeps it.
pub enum Change {
    InsertChar { y: int, x: int, ch: char },
    DeleteChar { y: int, x: int, ch: char },
    InsertNewline { y: int, x: int, right: Seq<char> },
    JoinLines { y: int, x: int, removed: Seq<char> },
}

/// A change together with where the document stood before it.
pub struct Undo {
    pub change: Change,
    pub cursor_x: int,
    pub cursor_y: int,
    pub offset_x: int,
    pub offset_y: int,
    pub dirty: bool,
}

/// The document under edit. The cursor stands before character `cursor_x` of line
/// `cursor_y`; the screen shows it from `offset_x` and `offset_y` on.
#[verifier::ext_equal]
pub struct Document {
    pub language: Language,
    pub lines: Seq<Seq<char>>,
    pub cursor_x: int,
    pub cursor_y: int,
    pub offset_x: int,
    pub offset_y: int,
    pub dirty: bool,
    pub history: Seq<Undo>,
}

/// An editor: a document and everything around it. The time until which a message
/// is shown counts nanoseconds.
#[verifier::ext_equal]
pub struct EditorState {
    pub doc: Document,
    pub filename: Seq<char>,
    pub search_input: Seq<char>,
    pub search_highlight: Seq<char>,
    pub in_search: bool,
    pub confirm_exit: bool,
    pub mode: InputMode,
    pub command_buffer: Seq<char>,
    pub groq_api_key: Option<Seq<char>>,
    pub groq_key_buffer: Seq<char>,
    pub pending_ai_request: Option<Seq<char>>,
    pub temp_status: Option<(Seq<char>, int)>,
    pub needs_redraw: bool,
    pub force_full_redraw: bool,
    pub last_rendered_rows: Seq<Seq<char>>,
    pub last_size: (u16, u16),
    pub ai_output: Option<Seq<Seq<char>>>,
    pub ai_scroll: int,
}

// ---------------------------------------------------------------------------
// Indentation
// ---------------------------------------------------------------------------

/// Number of blanks at the start of `line`.
pub open spec fn leading_blanks(line: Seq<char>) -> nat
    decreases line.len(),
{
    if line.len() > 0 && line[0] == ' ' {
        1 + leading_blanks(line.drop_first())
    } else {
        0
    }
}

/// The text to the left of a line break opens a block.
pub open spec fn opens_block(language: Language, left: Seq<char>) -> bool {
    let t = text::trimmed_end(left);
    match language {
        Language::Python => t.len() > 0 && t.last() == ':',
        Language::C | Language::Rust => t.len() > 0 && t.last() == '{',
        Language::PlainText | Language::Shell => false,
    }
}

/// The text to the right of a line break closes the block that it stands in.
pub open spec fn closes_block(language: Language, right: Seq<char>) -> bool {
    let t = text::trimmed_start(right);
    match language {
        Language::Python => text::has_prefix(t, "elif "@) || text::has_prefix(t, "else:"@)
            || text::has_prefix(t, "except"@),
        Language::C | Language::Rust => t.len() > 0 && t[0] == '}',
        Language::PlainText | Language::Shell => false,
    }
}

/// The indentation of the line that starts with `right` when a line is broken behind
/// `left`: that of `left`, one step more behind the opening of a block, one step less
/// before its closing, and never below zero.
pub open spec fn indent_after(language: Language, left: Seq<char>, right: Seq<char>) -> int {
    let opened = leading_blanks(left) + if opens_block(language, left) {
        INDENT_WIDTH as int
    } else {
        0
    };
    if closes_block(language, right) {
        text::max(opened - INDENT_WIDTH, 0)
    } else {
        opened
    }
}

// ---------------------------------------------------------------------------
// Documents
// ---------------------------------------------------------------------------

/// The number of lines before the change, if there are `n` after it.
pub open spec fn lines_before(n: int, change: Change) -> int {
    match change {
        Change::InsertNewline { .. } => n - 1,
        Change::JoinLines { .. } => n + 1,
        _ => n,
    }
}

/// The change speaks of lines that a document of `n` lines has.
pub open spec fn change_fits(n: int, change: Change) -> bool {
    match change {
        Change::InsertChar { y, .. } => 0 <= y < n,
        Change::DeleteChar { y, .. } => 0 <= y < n,
        Change::InsertNewline { y, .. } => 0 <= y && y + 1 < n,
        Change::JoinLines { y, x, .. } => 0 < y <= n && 0 <= x,
    }
}

/// The history fits a document of `n` lines: its changes, undone one after the other
/// from the last, always find the lines that they speak of.
pub open spec fn history_fits(n: int, history: Seq<Undo>) -> bool
    decreases history.len(),
{
    history.len() > 0 ==> {
        let u = history.last();
        let m = lines_before(n, u.change);
        &&& change_fits(n, u.change)
        &&& 0 <= u.cursor_y < m
        &&& 0 <= u.cursor_x
        &&& 0 <= u.offset_x
        &&& 0 <= u.offset_y
        &&& history_fits(m, history.drop_last())
    }
}

/// The lines with a change taken back.
pub open spec fn reverted(lines: Seq<Seq<char>>, change: Change) -> Seq<Seq<char>> {
    match change {
        Change::InsertChar { y, x, .. } => if 0 <= y < lines.len() && 0 <= x < lines[y].len() {
            lines.update(y, lines[y].remove(x))
        } else {
            lines
        },
        Change::DeleteChar { y, x, ch } => if 0 <= y < lines.len() {
            lines.update(y, lines[y].insert(text::min(x, lines[y].len() as int), ch))
        } else {
            lines
        },
        Change::InsertNewline { y, right, .. } => if 0 <= y && y + 1 < lines.len() {
            lines.remove(y + 1).update(y, lines[y] + right)
        } else {
            lines
        },
        Change::JoinLines { y, x, .. } => if 0 < y <= lines.len() {
            let k = text::min(x, lines[y - 1].len() as int);
            lines.update(y - 1, lines[y - 1].take(k)).insert(y, lines[y - 1].skip(k))
        } else {
            lines
        },
    }
}

/// The history with every entry marked: what undoing leads to counts as changed.
pub open spec fn marked(history: Seq<Undo>) -> Seq<Undo> {
    history.map_values(|u: Undo| Undo { dirty: true, ..u })
}

impl Document {
    /// The cursor stands on a line, and the history fits.
    pub open spec fn wf(self) -> bool {
        &&& 0 <= self.cursor_y < self.lines.len()
        &&& 0 <= self.cursor_x
        &&& 0 <= self.offset_x
        &&& 0 <= self.offset_y
        &&& history_fits(self.lines.len() as int, self.history)
    }

    /// The line that the cursor stands on.
    pub open spec fn line(self) -> Seq<char> {
        self.lines[self.cursor_y]
    }

    /// The place on its line that the cursor stands for: the end of the line, if the
    /// cursor is beyond it.
    pub open spec fn column(self) -> int {
        text::min(self.cursor_x, self.line().len() as int)
    }

    /// The document with a change set down in its history.
    pub open spec fn recorded(self, change: Change) -> Document {
        let entry = Undo {
            change,
            cursor_x: self.cursor_x,
            cursor_y: self.cursor_y,
            offset_x: self.offset_x,
            offset_y: self.offset_y,
            dirty: self.dirty,
        };
        Document { history: self.history.push(entry), ..self }
    }

    /// The document with a character typed at the cursor.
    pub open spec fn inserted(self, c: char) -> Document {
        let change = Change::InsertChar { y: self.cursor_y, x: self.cursor_x, ch: c };
        Document {
            lines: self.lines.update(self.cursor_y, self.line().insert(self.column(), c)),
            cursor_x: self.cursor_x + 1,
            dirty: true,
            ..self.recorded(change)
        }
    }

    /// Whether there is something for the backspace key to take away.
    pub open spec fn can_backspace(self) -> bool {
        if self.cursor_x > 0 {
            self.cursor_x <= self.line().len()
        } else {
            self.cursor_y > 0
        }
    }

    /// The document with the character before the cursor taken away, or, at the start
    /// of a line, with that line joined to the one above it.
    pub open spec fn backspaced(self) -> Document {
        let y = self.cursor_y;
        if !self.can_backspace() {
            self
        } else if self.cursor_x > 0 {
            let x = self.cursor_x - 1;
            let change = Change::DeleteChar { y, x, ch: self.line()[x] };
            Document {
                lines: self.lines.update(y, self.line().remove(x)),
                cursor_x: x,
                dirty: true,
                ..self.recorded(change)
            }
        } else {
            let above = self.lines[y - 1];
            let change = Change::JoinLines { y, x: above.len() as int, removed: self.line() };
            Document {
                lines: self.lines.remove(y).update(y - 1, above + self.line()),
                cursor_y: y - 1,
                cursor_x: above.len() as int,
                dirty: true,
                ..self.recorded(change)
            }
        }
    }

    /// The document with its line broken at the cursor, and the new line indented.
    pub open spec fn broken(self) -> Document {
        let y = self.cursor_y;
        let left = self.line().take(self.column());
        let right = self.line().skip(self.column());
        let indent = indent_after(self.language, left, right);
        let change = Change::InsertNewline { y, x: self.cursor_x, right };
        Document {
            lines: self.lines.update(y, left).insert(y + 1, display::blanks(indent) + right),
            cursor_y: y + 1,
            cursor_x: indent,
            dirty: true,
            ..self.recorded(change)
        }
    }

    /// The document once the file holds its text: nothing is changed, and undoing from
    /// here on leads to a text that the file does not hold.
    pub open spec fn saved(self) -> Document {
        Document { dirty: false, history: marked(self.history), ..self }
    }

    /// The document with its last change taken back.
    pub open spec fn undone(self) -> Document {
        if self.history.len() == 0 {
            self
        } else {
            let u = self.history.last();
            Document {
                lines: reverted(self.lines, u.change),
                cursor_x: u.cursor_x,
                cursor_y: u.cursor_y,
                offset_x: u.offset_x,
                offset_y: u.offset_y,
                dirty: u.dirty,
                history: self.history.drop_last(),
                ..self
            }
        }
    }

    /// The document with the cursor at a place.
    pub open spec fn at(self, y: int, x: int) -> Document {
        Document { cursor_x: x, cursor_y: y, ..self }
    }

    /// The document with the screen moved so that the cursor is on it: to the cursor
    /// if it stands before the screen, and just far enough if it stands behind.
    pub open spec fn scrolled(self, width: int, height: int) -> Document {
        let rows = text::max(height - 1, 0);
        Document {
            offset_y: scrolled_to(self.offset_y, self.cursor_y, rows),
            offset_x: scrolled_to(self.offset_x, self.cursor_x, width),
            ..self
        }
    }

    /// The first place, from the line `from` on, at which a line holds `query`.
    pub open spec fn first_match(self, query: Seq<char>, from: int) -> Option<(int, int)>
        decreases self.lines.len() - from,
    {
        if from < 0 || from >= self.lines.len() {
            None
        } else {
            match text::find_from(self.lines[from], query, 0) {
                Some(x) => Some((from, x)),
                None => self.first_match(query, from + 1),
            }
        }
    }
}

/// Where a screen `size` places long starts, so that `cursor` is on it.
pub open spec fn scrolled_to(offset: int, cursor: int, size: int) -> int {
    if cursor < offset {
        cursor
    } else if cursor >= offset + size {
        text::max(cursor - text::max(size - 1, 0), 0)
    } else {
        offset
    }
}

// ---------------------------------------------------------------------------
// Editors
// ---------------------------------------------------------------------------

/// The lines of a file that is opened: those of its text, and one empty line for an
/// empty or unreadable file.
pub open spec fn opened_lines(file: Option<Seq<char>>) -> Seq<Seq<char>> {
    match file {
        Some(t) => if lines::split(t).len() == 0 {
            seq![Seq::<char>::empty()]
        } else {
            lines::split(t)
        },
        None => seq![Seq::<char>::empty()],
    }
}

/// A time so far from the end of the clock that every message can still expire.
pub open spec fn clock_ok(now: u64) -> bool {
    now + AI_STATUS_SECONDS * NANOS_PER_SECOND <= u64::MAX
}

impl EditorState {
    /// The editor on a file just opened, which is in `language`.
    pub open spec fn opened(
        filename: Seq<char>,
        language: Language,
        file: Option<Seq<char>>,
        key_file: Option<Seq<char>>,
    ) -> EditorState {
        EditorState {
            doc: Document {
                language,
                lines: opened_lines(file),
                cursor_x: 0,
                cursor_y: 0,
                offset_x: 0,
                offset_y: 0,
                dirty: false,
                history: Seq::empty(),
            },
            filename,
            search_input: Seq::empty(),
            search_highlight: Seq::empty(),
            in_search: false,
            confirm_exit: false,
            mode: InputMode::Insert,
            command_buffer: Seq::empty(),
            groq_api_key: groq::stored_key(key_file),
            groq_key_buffer: Seq::empty(),
            pending_ai_request: None,
            temp_status: None,
            needs_redraw: true,
            force_full_redraw: true,
            last_rendered_rows: Seq::empty(),
            last_size: (0, 0),
            ai_output: None,
            ai_scroll: 0,
        }
    }

    /// The document is well formed, and the reply view is scrolled to one of its lines.
    pub open spec fn wf(self) -> bool {
        &&& self.doc.wf()
        &&& 0 <= self.ai_scroll
        &&& self.ai_output matches Some(reply) ==> self.ai_scroll == 0 || self.ai_scroll
            < reply.len()
    }

    /// The editor with another document.
    pub open spec fn with_doc(self, doc: Document) -> EditorState {
        EditorState { doc, ..self }
    }

    /// The editor showing a message for some seconds.
    pub open spec fn with_status(self, msg: Seq<char>, seconds: u64, now: u64) -> EditorState {
        EditorState { temp_status: Some((msg, now + seconds * NANOS_PER_SECOND)), ..self }
    }

    /// The editor showing a message for the usual time.
    pub open spec fn noting(self, msg: Seq<char>, now: u64) -> EditorState {
        self.with_status(msg, MESSAGE_STATUS_SECONDS, now)
    }

    /// The editor asking for what has changed to be drawn.
    pub open spec fn redrawn(self) -> EditorState {
        EditorState { needs_redraw: true, ..self }
    }

    /// The editor asking for the whole screen to be drawn.
    pub open spec fn fully_redrawn(self) -> EditorState {
        EditorState { needs_redraw: true, force_full_redraw: true, ..self }
    }

    /// The text of the status line.
    pub open spec fn status_line(self, now: u64) -> Seq<char> {
        if self.confirm_exit {
            "Exit without saving? (y = quit, n = cancel)"@
        } else if self.in_search {
            "Search: "@ + self.search_input
        } else if self.mode == InputMode::Command {
            "Command: "@ + self.command_buffer
        } else if self.mode == InputMode::AwaitGroqKey {
            "Groq API key: "@ + Seq::new(self.groq_key_buffer.len(), |i: int| '*')
                + " | Enter = save | Esc = cancel"@
        } else if self.temp_status is Some && now < (self.temp_status->0).1 {
            (self.temp_status->0).0
        } else {
            (if self.doc.dirty {
                "*"@
            } else {
                Seq::empty()
            }) + self.filename
                + " | Ctrl+S Save | Ctrl+F Find | Ctrl+Z Undo | Ctrl+X Exit | Esc Command"@
        }
    }

    /// The time to wait for a key: until the message expires, if one is shown, and no
    /// longer than a fixed time.
    pub open spec fn wait_time(self, now: u64) -> int {
        let longest = POLL_FALLBACK_MS * NANOS_PER_MS;
        if self.temp_status is Some && (self.temp_status->0).1 > now {
            text::min((self.temp_status->0).1 - now, longest)
        } else {
            longest
        }
    }

    /// Whether a message is there whose time is over.
    pub open spec fn expired(self, now: u64) -> bool {
        self.temp_status is Some && now >= (self.temp_status->0).1
    }
}

} // verus!
