//! Keys, and what each of them does.

use crate::command::{Effect, Step};
use crate::editor::Editor;
use crate::outside;
use crate::run_laws;
use crate::state;
use crate::state::{
    EditorState, InputMode, INDENT_WIDTH, MESSAGE_STATUS_SECONDS, SEARCH_STATUS_SECONDS,
};
use crate::text;
use vstd::prelude::*;

verus! {

/// A key, as far as the editor tells keys apart.
#[derive(Clone, Copy, PartialEq, Eq, Debug, Structural)]
pub enum KeyCode {
    Esc,
    Enter,
    Backspace,
    Up,
    Down,
    Left,
    Right,
    Char(char),
    Other,
}

/// A key press: the key, and the modifier keys held with it as crossterm's bits.
#[derive(Clone, Copy, PartialEq, Eq, Debug, Structural)]
pub struct Key {
    pub code: KeyCode,
    pub modifiers: u8,
}

impl Key {
    /// The control key is held.
    pub open spec fn control(self) -> bool {
        self.modifiers & 2u8 == 2u8
    }

    /// The key types this character: a character without the control key.
    pub open spec fn typed(self) -> Option<char> {
        match self.code {
            KeyCode::Char(c) => if self.control() {
                None
            } else {
                Some(c)
            },
            _ => None,
        }
    }

    /// One of the keys with a meaning of their own under the control key.
    pub open spec fn is_shortcut(self) -> bool {
        self.control() && (self.code == KeyCode::Char('x') || self.code == KeyCode::Char('s')
            || self.code == KeyCode::Char('f') || self.code == KeyCode::Char('z'))
    }

    /// Whether the control key is held.
    pub fn holds_control(&self) -> (r: bool)
        ensures
            r == self.control(),
    {
        outside::control_held(self.modifiers)
    }

    /// The character that the key types, if it types one.
    pub fn typed_char(&self) -> (c: Option<char>)
        ensures
            c == self.typed(),
    {
        match self.code {
            KeyCode::Char(c) => if self.holds_control() {
                None
            } else {
                Some(c)
            },
            _ => None,
        }
    }
}

/// A text without its last character; an empty text stays empty.
pub open spec fn shortened(s: Seq<char>) -> Seq<char> {
    if s.len() > 0 {
        s.drop_last()
    } else {
        s
    }
}

impl EditorState {
    /// A view or dialog is open that takes every key.
    pub open spec fn dialog_open(self) -> bool {
        self.ai_output is Some || self.confirm_exit || self.in_search
    }

    /// A key in the view of a reply: escape closes it, the arrows scroll it.
    pub open spec fn reply_key(self, code: KeyCode) -> EditorState {
        match code {
            KeyCode::Esc => EditorState { ai_output: None, ..self }.fully_redrawn(),
            KeyCode::Up => if self.ai_scroll > 0 {
                EditorState { ai_scroll: self.ai_scroll - 1, ..self }.redrawn()
            } else {
                self
            },
            KeyCode::Down => if self.ai_scroll + 1 < self.ai_output->0.len() {
                EditorState { ai_scroll: self.ai_scroll + 1, ..self }.redrawn()
            } else {
                self
            },
            _ => self,
        }
    }

    /// A key in answer to the question whether to leave.
    pub open spec fn confirm_key(self, code: KeyCode, now: u64) -> (EditorState, Step) {
        match code {
            KeyCode::Char('y') | KeyCode::Char('Y') => (self, Step::Quit),
            KeyCode::Char('n') | KeyCode::Char('N') | KeyCode::Esc => (
                EditorState { confirm_exit: false, ..self }.noting("Exit cancelled"@, now).redrawn(),
                Step::Continue,
            ),
            _ => (self, Step::Continue),
        }
    }

    /// The editor after a search for `query`, which is not empty.
    pub open spec fn searched(self, query: Seq<char>, now: u64) -> EditorState {
        let s = EditorState { search_highlight: query, ..self };
        match self.doc.first_match(query, 0) {
            Some((y, x)) => s.with_doc(self.doc.at(y, x)).with_status(
                "Found '"@ + query + "'"@,
                SEARCH_STATUS_SECONDS,
                now,
            ),
            None => s.with_status("'"@ + query + "' not found"@, SEARCH_STATUS_SECONDS, now),
        }.fully_redrawn()
    }

    /// A key while a search is typed.
    pub open spec fn search_key(self, key: Key, now: u64) -> EditorState {
        match key.code {
            KeyCode::Enter => {
                let s = EditorState { in_search: false, ..self };
                if self.search_input.len() == 0 {
                    s.redrawn()
                } else {
                    s.searched(self.search_input, now)
                }
            },
            KeyCode::Esc => EditorState {
                in_search: false,
                search_input: Seq::empty(),
                ..self
            }.noting("Find cancelled"@, now).redrawn(),
            KeyCode::Backspace => EditorState {
                search_input: shortened(self.search_input),
                ..self
            }.redrawn(),
            _ => match key.typed() {
                Some(c) => EditorState {
                    search_input: self.search_input.push(c),
                    ..self
                }.redrawn(),
                None => self,
            },
        }
    }

    /// A shortcut: leave, save, find or undo.
    pub open spec fn shortcut_key(self, code: KeyCode, now: u64) -> (EditorState, Step) {
        match code {
            KeyCode::Char('x') => (
                EditorState { confirm_exit: true, ..self }.redrawn(),
                Step::Continue,
            ),
            KeyCode::Char('s') => (self.redrawn(), self.save_step(false)),
            KeyCode::Char('f') => (
                EditorState {
                    in_search: true,
                    search_input: self.search_highlight,
                    ..self
                }.redrawn(),
                Step::Continue,
            ),
            KeyCode::Char('z') => (
                if self.doc.history.len() > 0 {
                    self.with_doc(self.doc.undone()).noting("Undid last edit"@, now)
                } else {
                    self.noting("Nothing to undo"@, now)
                }.fully_redrawn(),
                Step::Continue,
            ),
            _ => (self, Step::Continue),
        }
    }

    /// A key while the key of the assistant is typed.
    pub open spec fn groq_key_key(self, key: Key, now: u64) -> (EditorState, Step) {
        match key.code {
            KeyCode::Esc => (
                EditorState {
                    mode: InputMode::Insert,
                    groq_key_buffer: Seq::empty(),
                    pending_ai_request: None,
                    ..self
                }.noting("Groq key entry cancelled"@, now).redrawn(),
                Step::Continue,
            ),
            KeyCode::Enter => {
                let entered = text::trimmed(self.groq_key_buffer);
                if entered.len() == 0 {
                    (self.noting("Groq API key cannot be empty"@, now).redrawn(), Step::Continue)
                } else {
                    (self, Step::SaveGroqKey { key: entered })
                }
            },
            KeyCode::Backspace => (
                EditorState {
                    groq_key_buffer: shortened(self.groq_key_buffer),
                    ..self
                }.redrawn(),
                Step::Continue,
            ),
            _ => (
                match key.typed() {
                    Some(c) => EditorState {
                        groq_key_buffer: self.groq_key_buffer.push(c),
                        ..self
                    }.redrawn(),
                    None => self,
                },
                Step::Continue,
            ),
        }
    }

    /// A key while a command is typed. The colon before the command stays.
    pub open spec fn command_key(self, key: Key, now: u64) -> (EditorState, Step) {
        match key.code {
            KeyCode::Esc => (
                EditorState {
                    mode: InputMode::Insert,
                    command_buffer: Seq::empty(),
                    ..self
                }.noting("Command cancelled"@, now).redrawn(),
                Step::Continue,
            ),
            KeyCode::Enter => EditorState {
                mode: InputMode::Insert,
                command_buffer: Seq::empty(),
                ..self
            }.redrawn().commanded(self.command_buffer, now),
            KeyCode::Backspace => (
                EditorState {
                    command_buffer: if text::byte_len(self.command_buffer) > 1 {
                        shortened(self.command_buffer)
                    } else {
                        self.command_buffer
                    },
                    ..self
                }.redrawn(),
                Step::Continue,
            ),
            _ => (
                match key.typed() {
                    Some(c) => EditorState {
                        command_buffer: self.command_buffer.push(c),
                        ..self
                    }.redrawn(),
                    None => self,
                },
                Step::Continue,
            ),
        }
    }

    /// An arrow key: the cursor moves, and stays on a line of the document.
    pub open spec fn arrow_key(self, code: KeyCode) -> EditorState {
        let d = self.doc;
        let y = d.cursor_y;
        let x = d.cursor_x;
        match code {
            KeyCode::Up => if y > 0 {
                self.with_doc(d.at(y - 1, text::min(x, d.lines[y - 1].len() as int))).redrawn()
            } else {
                self
            },
            KeyCode::Down => if y + 1 < d.lines.len() {
                self.with_doc(d.at(y + 1, text::min(x, d.lines[y + 1].len() as int))).redrawn()
            } else {
                self
            },
            KeyCode::Left => if x > 0 {
                self.with_doc(d.at(y, x - 1))
            } else if y > 0 {
                self.with_doc(d.at(y - 1, d.lines[y - 1].len() as int))
            } else {
                self
            }.redrawn(),
            KeyCode::Right => if x < d.line().len() {
                self.with_doc(d.at(y, x + 1))
            } else if y + 1 < d.lines.len() {
                self.with_doc(d.at(y + 1, 0))
            } else {
                self
            }.redrawn(),
            _ => self,
        }
    }

    /// A key while text is typed: it moves the cursor or edits the document.
    pub open spec fn insert_key(self, key: Key, now: u64) -> EditorState {
        let d = self.doc;
        match key.code {
            KeyCode::Esc => EditorState {
                mode: InputMode::Command,
                command_buffer: seq![':'],
                ..self
            }.noting("Command mode"@, now).redrawn(),
            KeyCode::Up | KeyCode::Down | KeyCode::Left | KeyCode::Right => self.arrow_key(key.code),
            KeyCode::Backspace => self.with_doc(d.backspaced()).fully_redrawn(),
            KeyCode::Enter => self.with_doc(d.broken()).fully_redrawn(),
            _ => match key.typed() {
                Some(c) => self.with_doc(d.inserted(c)).fully_redrawn(),
                None => self,
            },
        }
    }

    /// The editor after a key, and what it asks for.
    pub open spec fn pressed(self, key: Key, now: u64) -> (EditorState, Step) {
        if self.ai_output is Some {
            (self.reply_key(key.code), Step::Continue)
        } else if self.confirm_exit {
            self.confirm_key(key.code, now)
        } else if self.in_search {
            (self.search_key(key, now), Step::Continue)
        } else if key.is_shortcut() {
            self.shortcut_key(key.code, now)
        } else {
            match self.mode {
                InputMode::AwaitGroqKey => self.groq_key_key(key, now),
                InputMode::Command => self.command_key(key, now),
                InputMode::Insert => (self.insert_key(key, now), Step::Continue),
            }
        }
    }

    /// The key is one for the text: no dialog, shortcut or command line takes it.
    pub open spec fn inserts(self, key: Key) -> bool {
        !self.dialog_open() && !key.is_shortcut() && self.mode == InputMode::Insert
    }

    /// The key undoes a change.
    pub open spec fn undoes(self, key: Key) -> bool {
        !self.dialog_open() && key.control() && key.code == KeyCode::Char('z')
    }
}

/// A string without its last character.
fn shorten(s: &str) -> (r: String)
    ensures
        r@ == shortened(s@),
{
    let n: usize = text::char_count(s);
    let end: usize = if n > 0 {
        n - 1
    } else {
        0
    };
    let r = s.substring_char(0, end).to_string();
    assert(r@ =~= shortened(s@));
    r
}

impl Editor {
    /// Takes a key in the view of a reply.
    fn handle_reply_key(&mut self, code: KeyCode)
        requires
            old(self).wf(),
            old(self).ai_output is Some,
        ensures
            final(self).wf(),
            final(self)@ == old(self)@.reply_key(code),
    {
        match code {
            KeyCode::Esc => {
                self.ai_output = None;
                self.request_full_redraw();
            },
            KeyCode::Up => {
                if self.ai_scroll > 0 {
                    self.ai_scroll = self.ai_scroll - 1;
                    self.request_redraw();
                }
            },
            KeyCode::Down => {
                let max_scroll: usize = match &self.ai_output {
                    Some(reply) => reply.len().saturating_sub(1),
                    None => 0,
                };
                if self.ai_scroll < max_scroll {
                    self.ai_scroll = self.ai_scroll + 1;
                    self.request_redraw();
                }
            },
            _ => {},
        }
    }

    /// Takes a key in answer to the question whether to leave.
    fn handle_confirm_key(&mut self, code: KeyCode, now: u64) -> (effect: Effect)
        requires
            old(self).wf(),
            state::clock_ok(now),
        ensures
            final(self).wf(),
            (final(self)@, effect@) == old(self)@.confirm_key(code, now),
    {
        match code {
            KeyCode::Char('y') | KeyCode::Char('Y') => {
                return Effect::Quit;
            },
            KeyCode::Char('n') | KeyCode::Char('N') | KeyCode::Esc => {
                self.confirm_exit = false;
                self.set_temp_status("Exit cancelled".to_string(), MESSAGE_STATUS_SECONDS, now);
                self.request_redraw();
            },
            _ => {},
        }
        Effect::Continue
    }

    /// Takes a key while a search is typed.
    fn handle_search_key(&mut self, key: Key, now: u64)
        requires
            old(self).wf(),
            state::clock_ok(now),
        ensures
            final(self).wf(),
            final(self)@ == old(self)@.search_key(key, now),
    {
        match key.code {
            KeyCode::Enter => {
                let query = self.search_input.clone();
                self.in_search = false;
                if query.as_str().is_empty() {
                    self.request_redraw();
                    return;
                }
                self.search_highlight = query.clone();
                if let Some((y, x)) = self.find_first(query.as_str()) {
                    self.cursor_y = y;
                    self.cursor_x = x;
                    let mut msg = "Found '".to_string();
                    msg.append(query.as_str());
                    msg.append("'");
                    self.set_temp_status(msg, SEARCH_STATUS_SECONDS, now);
                } else {
                    let mut msg = "'".to_string();
                    msg.append(query.as_str());
                    msg.append("' not found");
                    self.set_temp_status(msg, SEARCH_STATUS_SECONDS, now);
                }
                self.request_full_redraw();
            },
            KeyCode::Esc => {
                self.in_search = false;
                self.search_input = String::new();
                self.set_temp_status("Find cancelled".to_string(), MESSAGE_STATUS_SECONDS, now);
                self.request_redraw();
            },
            KeyCode::Backspace => {
                self.search_input = shorten(self.search_input.as_str());
                self.request_redraw();
            },
            _ => {
                if let Some(c) = key.typed_char() {
                    self.search_input.push(c);
                    self.request_redraw();
                }
            },
        }
    }

    /// Takes a shortcut.
    fn handle_shortcut(&mut self, code: KeyCode, now: u64) -> (effect: Effect)
        requires
            old(self).wf(),
            state::clock_ok(now),
        ensures
            final(self).wf(),
            (final(self)@, effect@) == old(self)@.shortcut_key(code, now),
    {
        match code {
            KeyCode::Char('x') => {
                self.confirm_exit = true;
                self.request_redraw();
            },
            KeyCode::Char('s') => {
                self.request_redraw();
                return self.save(false);
            },
            KeyCode::Char('f') => {
                self.in_search = true;
                self.search_input = self.search_highlight.clone();
                self.request_redraw();
            },
            KeyCode::Char('z') => {
                let msg = if self.undo() {
                    "Undid last edit"
                } else {
                    "Nothing to undo"
                };
                self.set_temp_status(msg.to_string(), MESSAGE_STATUS_SECONDS, now);
                self.request_full_redraw();
            },
            _ => {},
        }
        Effect::Continue
    }

    /// Takes a key while the key of the assistant is typed.
    fn handle_groq_key(&mut self, key: Key, now: u64) -> (effect: Effect)
        requires
            old(self).wf(),
            state::clock_ok(now),
        ensures
            final(self).wf(),
            (final(self)@, effect@) == old(self)@.groq_key_key(key, now),
    {
        match key.code {
            KeyCode::Esc => {
                self.mode = InputMode::Insert;
                self.groq_key_buffer = String::new();
                self.pending_ai_request = None;
                self.set_temp_status(
                    "Groq key entry cancelled".to_string(),
                    MESSAGE_STATUS_SECONDS,
                    now,
                );
                self.request_redraw();
            },
            KeyCode::Enter => {
                let entered = text::trim(self.groq_key_buffer.as_str()).to_string();
                if entered.as_str().is_empty() {
                    self.set_temp_status(
                        "Groq API key cannot be empty".to_string(),
                        MESSAGE_STATUS_SECONDS,
                        now,
                    );
                    self.request_redraw();
                } else {
                    return Effect::SaveGroqKey { key: entered };
                }
            },
            KeyCode::Backspace => {
                self.groq_key_buffer = shorten(self.groq_key_buffer.as_str());
                self.request_redraw();
            },
            _ => {
                if let Some(c) = key.typed_char() {
                    self.groq_key_buffer.push(c);
                    self.request_redraw();
                }
            },
        }
        Effect::Continue
    }

    /// Takes a key while a command is typed.
    fn handle_command_key(&mut self, key: Key, now: u64) -> (effect: Effect)
        requires
            old(self).wf(),
            state::clock_ok(now),
        ensures
            final(self).wf(),
            (final(self)@, effect@) == old(self)@.command_key(key, now),
    {
        match key.code {
            KeyCode::Esc => {
                self.mode = InputMode::Insert;
                self.command_buffer = String::new();
                self.set_temp_status("Command cancelled".to_string(), MESSAGE_STATUS_SECONDS, now);
                self.request_redraw();
            },
            KeyCode::Enter => {
                let command = self.command_buffer.clone();
                self.command_buffer = String::new();
                self.mode = InputMode::Insert;
                self.request_redraw();
                return self.execute_command(command.as_str(), now);
            },
            KeyCode::Backspace => {
                if text::byte_count(self.command_buffer.as_str()) > 1 {
                    self.command_buffer = shorten(self.command_buffer.as_str());
                }
                self.request_redraw();
            },
            _ => {
                if let Some(c) = key.typed_char() {
                    self.command_buffer.push(c);
                    self.request_redraw();
                }
            },
        }
        Effect::Continue
    }

    /// Puts the cursor at a place.
    fn step_to(&mut self, y: usize, x: usize)
        requires
            old(self).wf(),
            y < old(self)@.doc.lines.len(),
        ensures
            final(self).wf(),
            final(self)@ == old(self)@.with_doc(
                old(self)@.doc.at(y as int, x as int),
            ).redrawn(),
    {
        self.cursor_y = y;
        self.cursor_x = x;
        self.request_redraw();
    }

    /// The place on line `y` that the cursor moves to from another line.
    fn column_on(&self, y: usize) -> (x: usize)
        requires
            y < self@.doc.lines.len(),
        ensures
            x == text::min(self@.doc.cursor_x, self@.doc.lines[y as int].len() as int),
    {
        let n: usize = self.line_len(y);
        if n < self.cursor_x {
            n
        } else {
            self.cursor_x
        }
    }

    /// Takes an arrow key.
    fn handle_arrow_key(&mut self, code: KeyCode)
        requires
            old(self).wf(),
        ensures
            final(self).wf(),
            final(self)@ == old(self)@.arrow_key(code),
    {
        let y: usize = self.cursor_y;
        let x: usize = self.cursor_x;
        let last: usize = self.lines.len() - 1;
        match code {
            KeyCode::Up => {
                if y > 0 {
                    let col: usize = self.column_on(y - 1);
                    self.step_to(y - 1, col);
                }
            },
            KeyCode::Down => {
                if y < last {
                    let col: usize = self.column_on(y + 1);
                    self.step_to(y + 1, col);
                }
            },
            KeyCode::Left => {
                if x > 0 {
                    self.step_to(y, x - 1);
                } else if y > 0 {
                    let end: usize = self.line_len(y - 1);
                    self.step_to(y - 1, end);
                } else {
                    self.request_redraw();
                }
            },
            KeyCode::Right => {
                if x < self.line_len(y) {
                    self.step_to(y, x + 1);
                } else if y < last {
                    self.step_to(y + 1, 0);
                } else {
                    self.request_redraw();
                }
            },
            _ => {},
        }
    }

    /// Takes a key while text is typed.
    fn handle_insert_key(&mut self, key: Key, now: u64)
        requires
            old(self).wf(),
            key.typed() is Some ==> old(self).cursor_x < usize::MAX,
            key.code == KeyCode::Enter ==> old(self)@.doc.line().len() + INDENT_WIDTH
                <= usize::MAX,
            state::clock_ok(now),
        ensures
            final(self).wf(),
            final(self)@ == old(self)@.insert_key(key, now),
    {
        match key.code {
            KeyCode::Esc => {
                self.mode = InputMode::Command;
                self.command_buffer = String::new();
                self.command_buffer.push(':');
                assert(self.command_buffer@ =~= seq![':']);
                self.set_temp_status("Command mode".to_string(), MESSAGE_STATUS_SECONDS, now);
                self.request_redraw();
            },
            KeyCode::Up | KeyCode::Down | KeyCode::Left | KeyCode::Right => {
                self.handle_arrow_key(key.code);
            },
            KeyCode::Backspace => {
                self.backspace();
                self.request_full_redraw();
            },
            KeyCode::Enter => {
                self.insert_newline();
                self.request_full_redraw();
            },
            _ => {
                if let Some(c) = key.typed_char() {
                    self.insert_char(c);
                    self.request_full_redraw();
                }
            },
        }
    }

    /// The key can be taken: a key that types or indents stays below the largest number
    /// of the machine.
    pub open spec fn can_take(self, key: Key) -> bool {
        &&& self@.inserts(key) && key.typed() is Some ==> self.cursor_x < usize::MAX
        &&& self@.inserts(key) && key.code == KeyCode::Enter ==> self@.doc.line().len()
            + INDENT_WIDTH <= usize::MAX
    }

    /// Whether the key can be taken.
    pub fn accepts(&self, key: Key) -> (r: bool)
        requires
            self.wf(),
        ensures
            r == self.can_take(key),
    {
        if self.ai_output.is_some() || self.confirm_exit || self.in_search {
            return true;
        }
        if self.mode != InputMode::Insert {
            return true;
        }
        match key.code {
            KeyCode::Char(_) => key.holds_control() || self.cursor_x < usize::MAX,
            KeyCode::Enter => self.line_len(self.cursor_y) <= usize::MAX - INDENT_WIDTH,
            _ => true,
        }
    }

    /// Takes a key, and says what the editor asks for.
    pub fn handle_key(&mut self, key: Key, now: u64) -> (effect: Effect)
        requires
            old(self).wf(),
            old(self).can_take(key),
            state::clock_ok(now),
        ensures
            final(self).wf(),
            old(self)@.doc.cursors_in_lines() ==> final(self)@.doc.cursors_in_lines(),
            (final(self)@, effect@) == old(self)@.pressed(key, now),
    {
        proof {
            if self@.doc.cursors_in_lines() {
                run_laws::law_keys_keep_cursors(self@, key, now);
            }
        }
        if self.ai_output.is_some() {
            self.handle_reply_key(key.code);
            return Effect::Continue;
        }
        if self.confirm_exit {
            return self.handle_confirm_key(key.code, now);
        }
        if self.in_search {
            self.handle_search_key(key, now);
            return Effect::Continue;
        }
        if key.holds_control() {
            match key.code {
                KeyCode::Char('x') | KeyCode::Char('s') | KeyCode::Char('f') | KeyCode::Char(
                    'z',
                ) => {
                    return self.handle_shortcut(key.code, now);
                },
                _ => {},
            }
        }
        match self.mode {
            InputMode::AwaitGroqKey => self.handle_groq_key(key, now),
            InputMode::Command => self.handle_command_key(key, now),
            InputMode::Insert => {
                self.handle_insert_key(key, now);
                Effect::Continue
            },
        }
    }
}

} // verus!
