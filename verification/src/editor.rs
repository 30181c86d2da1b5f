//! The editor itself: its fields, how it is opened, and its messages.

use crate::groq;
use crate::language;
use crate::language::Language;
use crate::lines;
use crate::state::{
    Change, Document, EditorState, InputMode, Undo, NANOS_PER_MS, NANOS_PER_SECOND,
    POLL_FALLBACK_MS,
};
use crate::text;
use vstd::prelude::*;

verus! {

/// A change to the lines, with what it takes to undo it.
#[derive(Clone, Debug)]
pub enum UndoAction {
    InsertChar { y: usize, x: usize, ch: char },
    DeleteChar { y: usize, x: usize, ch: char },
    InsertNewline { y: usize, x: usize, right: String },
    JoinLines { y: usize, x: usize, removed: String },
}

/// An entry of the history: a change, and where the document stood before it.
#[derive(Clone, Debug)]
pub struct UndoEntry {
    pub action: UndoAction,
    pub cursor_x: usize,
    pub cursor_y: usize,
    pub offset_x: usize,
    pub offset_y: usize,
    pub dirty: bool,
}

/// An editor on one file. The time of a message is the end of its display, in
/// nanoseconds of the clock whose time the methods are given.
pub struct Editor {
    pub language: Language,
    pub filename: String,
    pub lines: Vec<String>,
    pub cursor_x: usize,
    pub cursor_y: usize,
    pub offset_x: usize,
    pub offset_y: usize,
    pub search_input: String,
    pub search_highlight: String,
    pub in_search: bool,
    pub confirm_exit: bool,
    pub mode: InputMode,
    pub command_buffer: String,
    pub groq_api_key: Option<String>,
    pub groq_key_buffer: String,
    pub pending_ai_request: Option<String>,
    pub temp_status: Option<(String, u64)>,
    pub dirty: bool,
    pub undo_stack: Vec<UndoEntry>,
    pub needs_redraw: bool,
    pub force_full_redraw: bool,
    pub last_rendered_rows: Vec<String>,
    pub last_size: (u16, u16),
    pub ai_output: Option<Vec<String>>,
    pub ai_scroll: usize,
}

impl View for UndoAction {
    type V = Change;

    open spec fn view(&self) -> Change {
        match *self {
            UndoAction::InsertChar { y, x, ch } => Change::InsertChar {
                y: y as int,
                x: x as int,
                ch,
            },
            UndoAction::DeleteChar { y, x, ch } => Change::DeleteChar {
                y: y as int,
                x: x as int,
                ch,
            },
            UndoAction::InsertNewline { y, x, right } => Change::InsertNewline {
                y: y as int,
                x: x as int,
                right: right@,
            },
            UndoAction::JoinLines { y, x, removed } => Change::JoinLines {
                y: y as int,
                x: x as int,
                removed: removed@,
            },
        }
    }
}

impl View for UndoEntry {
    type V = Undo;

    open spec fn view(&self) -> Undo {
        Undo {
            change: self.action@,
            cursor_x: self.cursor_x as int,
            cursor_y: self.cursor_y as int,
            offset_x: self.offset_x as int,
            offset_y: self.offset_y as int,
            dirty: self.dirty,
        }
    }
}

impl View for Editor {
    type V = EditorState;

    open spec fn view(&self) -> EditorState {
        EditorState {
            doc: Document {
                language: self.language,
                lines: lines::contents(self.lines@),
                cursor_x: self.cursor_x as int,
                cursor_y: self.cursor_y as int,
                offset_x: self.offset_x as int,
                offset_y: self.offset_y as int,
                dirty: self.dirty,
                history: self.undo_stack@.map_values(|e: UndoEntry| e@),
            },
            filename: self.filename@,
            search_input: self.search_input@,
            search_highlight: self.search_highlight@,
            in_search: self.in_search,
            confirm_exit: self.confirm_exit,
            mode: self.mode,
            command_buffer: self.command_buffer@,
            groq_api_key: text::text_of(self.groq_api_key),
            groq_key_buffer: self.groq_key_buffer@,
            pending_ai_request: text::text_of(self.pending_ai_request),
            temp_status: match self.temp_status {
                Some((msg, until)) => Some((msg@, until as int)),
                None => None,
            },
            needs_redraw: self.needs_redraw,
            force_full_redraw: self.force_full_redraw,
            last_rendered_rows: lines::contents(self.last_rendered_rows@),
            last_size: self.last_size,
            ai_output: match self.ai_output {
                Some(reply) => Some(lines::contents(reply@)),
                None => None,
            },
            ai_scroll: self.ai_scroll as int,
        }
    }
}

impl Editor {
    /// The editor is well formed.
    pub open spec fn wf(self) -> bool {
        self@.wf()
    }

    /// Opens an editor on the file `filename`. `file` is the text of that file and
    /// `key_file` that of the key file, each if it could be read.
    pub fn open(filename: String, file: Option<String>, key_file: Option<String>) -> (ed: Editor)
        ensures
            ed.wf(),
            ed@.doc.cursors_in_lines(),
            language::is_language(filename@, ed.language),
            ed@ == EditorState::opened(
                filename@,
                ed.language,
                text::text_of(file),
                text::text_of(key_file),
            ),
    {
        let language = language::detect_language(filename.as_str());
        let lines: Vec<String> = match &file {
            Some(t) => {
                let mut out = lines::split_lines(t.as_str());
                if out.len() == 0 {
                    out.push(String::new());
                    assert(lines::contents(out@) =~= seq![Seq::<char>::empty()]);
                }
                out
            },
            None => {
                let mut out: Vec<String> = Vec::new();
                out.push(String::new());
                assert(lines::contents(out@) =~= seq![Seq::<char>::empty()]);
                out
            },
        };
        let ed = Editor {
            language,
            filename,
            lines,
            cursor_x: 0,
            cursor_y: 0,
            offset_x: 0,
            offset_y: 0,
            search_input: String::new(),
            search_highlight: String::new(),
            in_search: false,
            confirm_exit: false,
            mode: InputMode::Insert,
            command_buffer: String::new(),
            groq_api_key: groq::load_groq_api_key(key_file),
            groq_key_buffer: String::new(),
            pending_ai_request: None,
            temp_status: None,
            dirty: false,
            undo_stack: Vec::new(),
            needs_redraw: true,
            force_full_redraw: true,
            last_rendered_rows: Vec::new(),
            last_size: (0, 0),
            ai_output: None,
            ai_scroll: 0,
        };
        assert(ed@.doc.history =~= Seq::<Undo>::empty());
        assert(ed@.last_rendered_rows =~= Seq::<Seq<char>>::empty());
        ed
    }

    /// Asks for what has changed to be drawn.
    pub fn request_redraw(&mut self)
        ensures
            final(self)@ == old(self)@.redrawn(),
    {
        self.needs_redraw = true;
    }

    /// Asks for the whole screen to be drawn.
    pub fn request_full_redraw(&mut self)
        ensures
            final(self)@ == old(self)@.fully_redrawn(),
    {
        self.needs_redraw = true;
        self.force_full_redraw = true;
    }

    /// Whether something is to be drawn.
    pub fn needs_redraw(&self) -> (r: bool)
        ensures
            r == self@.needs_redraw,
    {
        self.needs_redraw
    }

    /// How long to wait for a key, in nanoseconds.
    pub fn poll_timeout(&self, now: u64) -> (nanos: u64)
        ensures
            nanos == self@.wait_time(now),
    {
        let longest: u64 = POLL_FALLBACK_MS * NANOS_PER_MS;
        if let Some((_, until)) = &self.temp_status {
            if *until > now {
                let left: u64 = *until - now;
                return if left < longest {
                    left
                } else {
                    longest
                };
            }
        }
        longest
    }

    /// Drops the message if its time is over, and says whether it was.
    pub fn tick(&mut self, now: u64) -> (dropped: bool)
        ensures
            dropped == old(self)@.expired(now),
            final(self)@ == (if old(self)@.expired(now) {
                EditorState { temp_status: None, ..old(self)@ }
            } else {
                old(self)@
            }),
    {
        let over = match &self.temp_status {
            Some((_, until)) => now >= *until,
            None => false,
        };
        if over {
            self.temp_status = None;
        }
        over
    }

    /// Shows a message for some seconds from `now` on.
    pub fn set_temp_status(&mut self, msg: String, seconds: u64, now: u64)
        requires
            now + seconds * NANOS_PER_SECOND <= u64::MAX,
        ensures
            final(self)@ == old(self)@.with_status(msg@, seconds, now),
    {
        self.temp_status = Some((msg, now + seconds * NANOS_PER_SECOND));
    }

    /// The text of the status line.
    pub fn current_status(&self, now: u64) -> (s: String)
        ensures
            s@ == self@.status_line(now),
    {
        if self.confirm_exit {
            return "Exit without saving? (y = quit, n = cancel)".to_string();
        }
        if self.in_search {
            let mut s = "Search: ".to_string();
            s.append(self.search_input.as_str());
            return s;
        }
        if self.mode == InputMode::Command {
            let mut s = "Command: ".to_string();
            s.append(self.command_buffer.as_str());
            return s;
        }
        if self.mode == InputMode::AwaitGroqKey {
            let masked = text::repeat_char('*', text::char_count(self.groq_key_buffer.as_str()));
            let mut s = "Groq API key: ".to_string();
            s.append(masked.as_str());
            s.append(" | Enter = save | Esc = cancel");
            return s;
        }
        if let Some((msg, until)) = &self.temp_status {
            if now < *until {
                return msg.clone();
            }
        }
        let mut s = String::new();
        if self.dirty {
            s.append("*");
        }
        assert(s@ =~= (if self@.doc.dirty {
            "*"@
        } else {
            Seq::empty()
        }));
        s.append(self.filename.as_str());
        s.append(" | Ctrl+S Save | Ctrl+F Find | Ctrl+Z Undo | Ctrl+X Exit | Esc Command");
        s
    }

    /// The text of the document, as it is saved.
    pub fn file_text(&self) -> (t: String)
        ensures
            t@ == lines::joined(self@.doc.lines),
    {
        lines::join_lines(&self.lines)
    }

    /// Number of characters of line `y`.
    pub fn line_len(&self, y: usize) -> (n: usize)
        requires
            y < self@.doc.lines.len(),
        ensures
            n == self@.doc.lines[y as int].len(),
    {
        text::char_count(self.lines[y].as_str())
    }
}

} // verus!
