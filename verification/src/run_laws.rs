//! What holds of an editor from its opening on, whatever keys are pressed and however
//! what it asks for goes.

use crate::command;
use crate::command::Outcome;
use crate::edit;
use crate::key_laws;
use crate::keyboard::{Key, KeyCode};
use crate::language::Language;
use crate::laws;
use crate::laws::Edit;
use crate::lines;
use crate::state;
use crate::state::{Document, EditorState, InputMode, Undo};
use crate::text;
use vstd::prelude::*;

verus! {

// ---------------------------------------------------------------------------
// What a history keeps
// ---------------------------------------------------------------------------

/// A text that is not marked as changed is `kept`: this one, and each that undoing
/// leads to.
pub open spec fn marks_tell(
    lines: Seq<Seq<char>>,
    history: Seq<Undo>,
    dirty: bool,
    kept: Seq<Seq<char>>,
) -> bool
    decreases history.len(),
{
    &&& !dirty ==> lines == kept
    &&& history.len() > 0 ==> marks_tell(
        state::reverted(lines, history.last().change),
        history.drop_last(),
        history.last().dirty,
        kept,
    )
}

/// Each cursor that undoing leads to stands within a line of the text that it leads to.
pub open spec fn cursors_fit(lines: Seq<Seq<char>>, history: Seq<Undo>) -> bool
    decreases history.len(),
{
    history.len() > 0 ==> {
        let u = history.last();
        let before = state::reverted(lines, u.change);
        &&& 0 <= u.cursor_y < before.len()
        &&& 0 <= u.cursor_x <= before[u.cursor_y].len()
        &&& cursors_fit(before, history.drop_last())
    }
}

impl Document {
    /// The document, and each that undoing leads to, is marked as changed unless its
    /// text is `kept`.
    pub open spec fn tells(self, kept: Seq<Seq<char>>) -> bool {
        marks_tell(self.lines, self.history, self.dirty, kept)
    }

    /// The cursor stands within its line, now and wherever undoing leads.
    pub open spec fn cursors_in_lines(self) -> bool {
        self.cursor_in_line() && cursors_fit(self.lines, self.history)
    }
}

/// An edit keeps what the marks tell.
pub proof fn law_edits_keep_marks(d: Document, e: Edit, kept: Seq<Seq<char>>)
    requires
        d.wf(),
        d.cursor_in_line(),
        d.tells(kept),
    ensures
        d.edited(e).tells(kept),
{
    if d.reversible(e) {
        lemma_edit_undone(d, e);
    }
}

/// Undoing keeps what the marks tell.
pub proof fn law_undo_keeps_marks(d: Document, kept: Seq<Seq<char>>)
    requires
        d.tells(kept),
    ensures
        d.undone().tells(kept),
{
}

/// Once a text is saved the marks tell of that text, whatever was saved before.
pub proof fn law_saving_sets_marks(d: Document)
    ensures
        d.saved().tells(d.lines),
{
    lemma_marked_tells(d.lines, d.history, d.lines);
}

proof fn lemma_marked_tells(lines: Seq<Seq<char>>, history: Seq<Undo>, kept: Seq<Seq<char>>)
    ensures
        marks_tell(lines, state::marked(history), true, kept),
    decreases history.len(),
{
    let m = state::marked(history);
    if history.len() > 0 {
        assert(m.drop_last() =~= state::marked(history.drop_last()));
        lemma_marked_tells(
            state::reverted(lines, history.last().change),
            history.drop_last(),
            kept,
        );
    }
}

/// An edit keeps every cursor within its line.
pub proof fn law_edits_keep_cursors(d: Document, e: Edit)
    requires
        d.wf(),
        d.cursors_in_lines(),
    ensures
        d.edited(e).cursors_in_lines(),
{
    laws::law_edits_keep_cursor_in_line(d, e);
    if d.reversible(e) {
        lemma_edit_undone(d, e);
    }
}

/// Undoing keeps every cursor within its line.
pub proof fn law_undo_keeps_cursors(d: Document)
    requires
        d.cursors_in_lines(),
    ensures
        d.undone().cursors_in_lines(),
{
}

/// Saving keeps every cursor within its line.
pub proof fn law_saving_keeps_cursors(d: Document)
    requires
        d.cursors_in_lines(),
    ensures
        d.saved().cursors_in_lines(),
{
    lemma_marked_cursors(d.lines, d.history);
}

proof fn lemma_marked_cursors(lines: Seq<Seq<char>>, history: Seq<Undo>)
    requires
        cursors_fit(lines, history),
    ensures
        cursors_fit(lines, state::marked(history)),
    decreases history.len(),
{
    let m = state::marked(history);
    if history.len() > 0 {
        assert(m.drop_last() =~= state::marked(history.drop_last()));
        lemma_marked_cursors(state::reverted(lines, history.last().change), history.drop_last());
    }
}

proof fn lemma_edit_undone(d: Document, e: Edit)
    requires
        d.wf(),
        d.reversible(e),
    ensures
        d.edited(e).history.len() == d.history.len() + 1,
        d.edited(e).undone() == d,
        d.edited(e).dirty,
{
    match e {
        Edit::Type(c) => laws::law_undo_typing(d, c),
        Edit::Backspace => laws::law_undo_backspace(d),
        Edit::Break => laws::law_undo_break(d),
    }
}

// ---------------------------------------------------------------------------
// Keys and outcomes
// ---------------------------------------------------------------------------

/// The edit that a key for the text makes, if it makes one.
pub open spec fn edit_of(key: Key) -> Option<Edit> {
    match key.code {
        KeyCode::Backspace => Some(Edit::Backspace),
        KeyCode::Enter => Some(Edit::Break),
        _ => match key.typed() {
            Some(c) => Some(Edit::Type(c)),
            None => None,
        },
    }
}

/// What a key does to the document: it edits it, undoes a change, or leaves its text,
/// its mark and its history alone.
pub proof fn law_keys_edit_or_undo(e: EditorState, key: Key, now: u64)
    ensures
        e.inserts(key) && edit_of(key) is Some ==> e.pressed(key, now).0.doc == e.doc.edited(
            edit_of(key)->0,
        ),
        e.undoes(key) ==> e.pressed(key, now).0.doc == e.doc.undone(),
        !(e.inserts(key) && edit_of(key) is Some) && !e.undoes(key) ==> {
            &&& e.pressed(key, now).0.doc.lines == e.doc.lines
            &&& e.pressed(key, now).0.doc.dirty == e.doc.dirty
            &&& e.pressed(key, now).0.doc.history == e.doc.history
        },
{
    if e.dialog_open() {
        key_laws::law_dialogs_keep_text(e, key, now);
    } else if e.mode != InputMode::Insert && !e.undoes(key) {
        key_laws::law_commands_keep_text(e, key, now);
    }
}

/// Every key keeps an editor well formed.
pub proof fn law_keys_keep_wf(e: EditorState, key: Key, now: u64)
    requires
        e.wf(),
    ensures
        e.pressed(key, now).0.wf(),
{
    law_keys_edit_or_undo(e, key, now);
    if e.undoes(key) {
        edit::law_undo_keeps_wf(e.doc);
    } else if e.inserts(key) && edit_of(key) is Some {
        match edit_of(key)->0 {
            Edit::Type(c) => edit::law_typing_keeps_wf(e.doc, c),
            Edit::Backspace => edit::law_backspace_keeps_wf(e.doc),
            Edit::Break => edit::law_break_keeps_wf(e.doc),
        }
    } else if e.ai_output is None && !e.confirm_exit && e.in_search {
        key_laws::law_first_match(e.doc, e.search_input, 0);
    }
}

/// Every key keeps the cursor within its line, and every cursor that undoing leads to.
pub proof fn law_keys_keep_cursors(e: EditorState, key: Key, now: u64)
    requires
        e.wf(),
        e.doc.cursors_in_lines(),
    ensures
        e.pressed(key, now).0.doc.cursors_in_lines(),
{
    law_keys_edit_or_undo(e, key, now);
    if e.undoes(key) {
        law_undo_keeps_cursors(e.doc);
    } else if e.inserts(key) && edit_of(key) is Some {
        law_edits_keep_cursors(e.doc, edit_of(key)->0);
    } else {
        key_laws::law_keys_keep_cursor_in_line(e, key, now);
    }
}

/// Every key keeps what the marks tell.
pub proof fn law_keys_keep_marks(e: EditorState, key: Key, now: u64, kept: Seq<Seq<char>>)
    requires
        e.wf(),
        e.doc.cursor_in_line(),
        e.doc.tells(kept),
    ensures
        e.pressed(key, now).0.doc.tells(kept),
{
    law_keys_edit_or_undo(e, key, now);
    if e.undoes(key) {
        law_undo_keeps_marks(e.doc, kept);
    } else if e.inserts(key) && edit_of(key) is Some {
        law_edits_keep_marks(e.doc, edit_of(key)->0, kept);
    }
}

/// What a key asks to be written is the text of the document after that key.
pub proof fn law_save_writes_text(e: EditorState, key: Key, now: u64)
    requires
        e.pressed(key, now).1 is Save,
    ensures
        e.pressed(key, now).1->Save_text == lines::joined(e.pressed(key, now).0.doc.lines),
{
}

// ---------------------------------------------------------------------------
// Runs
// ---------------------------------------------------------------------------

/// What happens to an editor: a key, the outcome of what it asked for, a look at the
/// clock, a picture on the screen, or a new size of the screen.
pub enum Event {
    Pressed { key: Key, now: u64 },
    Answered { outcome: Outcome, now: u64 },
    Ticked { now: u64 },
    Shown { size: (u16, u16), now: u64 },
    Resized,
}

/// An editor in use, with the lines that were last opened or written.
pub struct Run {
    pub editor: EditorState,
    pub kept: Seq<Seq<char>>,
}

impl Run {
    /// A run that starts with the opening of a file.
    pub open spec fn opened(
        filename: Seq<char>,
        language: Language,
        file: Option<Seq<char>>,
        key_file: Option<Seq<char>>,
    ) -> Run {
        Run {
            editor: EditorState::opened(filename, language, file, key_file),
            kept: state::opened_lines(file),
        }
    }

    /// The run after an event. The outcome of a write is that of writing the text of
    /// the document.
    pub open spec fn stepped(self, event: Event) -> Run {
        let e = self.editor;
        match event {
            Event::Pressed { key, now } => Run { editor: e.pressed(key, now).0, ..self },
            Event::Answered { outcome, now } => Run {
                editor: e.resumed(outcome, now).0,
                kept: if outcome is Saved && outcome->Saved_ok {
                    e.doc.lines
                } else {
                    self.kept
                },
            },
            Event::Ticked { now } => Run {
                editor: if e.expired(now) {
                    EditorState { temp_status: None, ..e }.redrawn()
                } else {
                    e
                },
                ..self
            },
            Event::Shown { size, now } => {
                let p = e.positioned(size);
                Run {
                    editor: p.drawn(
                        if e.ai_output is Some {
                            None
                        } else {
                            Some(p.shown_rows(size, now))
                        },
                        size,
                    ),
                    ..self
                }
            },
            Event::Resized => Run { editor: e.fully_redrawn(), ..self },
        }
    }

    /// The run after a series of events.
    pub open spec fn after(self, events: Seq<Event>) -> Run
        decreases events.len(),
    {
        if events.len() == 0 {
            self
        } else {
            self.after(events.drop_last()).stepped(events.last())
        }
    }

    /// The editor is well formed; its cursor stands within its line, now and wherever
    /// undoing leads; a text that is not marked as changed is the one last opened or
    /// written; and the command line starts with its colon.
    pub open spec fn sound(self) -> bool {
        &&& self.editor.wf()
        &&& self.editor.doc.cursors_in_lines()
        &&& self.editor.doc.tells(self.kept)
        &&& key_laws::has_prompt(self.editor)
    }
}

proof fn lemma_answer_keeps_sound(r: Run, outcome: Outcome, now: u64)
    requires
        r.sound(),
    ensures
        r.stepped(Event::Answered { outcome, now }).sound(),
{
    let e = r.editor;
    let after = r.stepped(Event::Answered { outcome, now });
    if outcome is Saved && outcome->Saved_ok {
        edit::law_saving_keeps_wf(e.doc);
        law_saving_keeps_cursors(e.doc);
        law_saving_sets_marks(e.doc);
        assert(after.editor.doc == e.doc.saved());
    } else {
        assert(after.editor.doc == e.doc);
    }
}

/// A run stays sound, whatever happens.
pub proof fn law_events_keep_sound(r: Run, event: Event)
    requires
        r.sound(),
    ensures
        r.stepped(event).sound(),
{
    match event {
        Event::Pressed { key, now } => {
            law_keys_keep_wf(r.editor, key, now);
            law_keys_keep_cursors(r.editor, key, now);
            law_keys_keep_marks(r.editor, key, now, r.kept);
            key_laws::law_prompt_stays(r.editor, key, now);
        },
        Event::Answered { outcome, now } => {
            lemma_answer_keeps_sound(r, outcome, now);
        },
        _ => {},
    }
}

/// From the opening of a file on, an editor is sound at every moment: in particular its
/// cursor stands within a line of its text.
pub proof fn law_always_sound(
    filename: Seq<char>,
    language: Language,
    file: Option<Seq<char>>,
    key_file: Option<Seq<char>>,
    events: Seq<Event>,
)
    ensures
        Run::opened(filename, language, file, key_file).after(events).sound(),
    decreases events.len(),
{
    if events.len() > 0 {
        law_always_sound(filename, language, file, key_file, events.drop_last());
        law_events_keep_sound(
            Run::opened(filename, language, file, key_file).after(events.drop_last()),
            events.last(),
        );
    }
}

/// The plain quit command leaves nothing unsaved behind: from the opening of a file on,
/// it leaves only if the text is the one last opened or written.
pub proof fn law_plain_quit_is_clean(
    filename: Seq<char>,
    language: Language,
    file: Option<Seq<char>>,
    key_file: Option<Seq<char>>,
    events: Seq<Event>,
    command: Seq<char>,
    now: u64,
)
    requires
        command::command_word(command) == "q"@,
    ensures
        ({
            let r = Run::opened(filename, language, file, key_file).after(events);
            r.editor.commanded(command, now).1 is Quit ==> r.editor.doc.lines == r.kept
        }),
{
    let r = Run::opened(filename, language, file, key_file).after(events);
    law_always_sound(filename, language, file, key_file, events);
    if r.editor.doc.dirty {
        key_laws::law_quit_needs_saved_text(r.editor, command, now);
    }
}

/// Undoing a change that was saved marks the text as changed, so that the plain quit
/// command does not leave it.
pub proof fn law_undo_past_save_marks(d: Document)
    requires
        d.history.len() > 0,
    ensures
        d.saved().undone().dirty,
        d.saved().undone().lines == d.undone().lines,
{
}

} // verus!
