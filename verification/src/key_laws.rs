//! What holds of the keyboard: which keys can change the text, and which can leave.

use crate::command;
use crate::command::{Outcome, Step};
use crate::keyboard::{Key, KeyCode};
use crate::language::Language;
use crate::laws;
use crate::laws::Edit;
use crate::number;
use crate::state::{Document, EditorState, InputMode};
use crate::text;
use vstd::prelude::*;

verus! {

/// While a view or dialog is open, no key changes the text or its history.
pub proof fn law_dialogs_keep_text(e: EditorState, key: Key, now: u64)
    requires
        e.dialog_open(),
    ensures
        e.pressed(key, now).0.doc.lines == e.doc.lines,
        e.pressed(key, now).0.doc.history == e.doc.history,
        e.pressed(key, now).0.doc.dirty == e.doc.dirty,
{
}

/// While a command or the key of the assistant is typed, no key but that for undoing
/// changes the text or its history.
pub proof fn law_commands_keep_text(e: EditorState, key: Key, now: u64)
    requires
        e.mode != InputMode::Insert,
        !e.undoes(key),
    ensures
        e.pressed(key, now).0.doc.lines == e.doc.lines,
        e.pressed(key, now).0.doc.history == e.doc.history,
        e.pressed(key, now).0.doc.dirty == e.doc.dirty,
{
}

/// A key leaves the editor only in answer to the question whether to, or by a quit
/// command; and by the plain one only if the document is not marked as changed.
pub proof fn law_quit_is_asked_for(e: EditorState, key: Key, now: u64)
    requires
        e.pressed(key, now).1 is Quit,
    ensures
        ({
            ||| e.confirm_exit && (key.code == KeyCode::Char('y') || key.code == KeyCode::Char('Y'))
            ||| e.mode == InputMode::Command && key.code == KeyCode::Enter && command::command_word(
                e.command_buffer,
            ) == "q!"@
            ||| e.mode == InputMode::Command && key.code == KeyCode::Enter && command::command_word(
                e.command_buffer,
            ) == "q"@ && !e.doc.dirty
        }),
{
}

/// The plain quit command does not leave a document that is marked as changed: it says
/// so instead.
pub proof fn law_quit_needs_saved_text(e: EditorState, command: Seq<char>, now: u64)
    requires
        command::command_word(command) == "q"@,
        e.doc.dirty,
    ensures
        e.commanded(command, now).1 is Continue,
        e.commanded(command, now).0.doc == e.doc,
        e.commanded(command, now).0 == e.noting("Unsaved changes. Use :q! to quit anyway."@, now),
{
    reveal_strlit("q");
    reveal_strlit("w");
    assert("q"@[0] == 'q');
    assert("w"@[0] == 'w');
    lemma_letter_is_no_number("q"@);
}

/// An outcome leaves the editor only if the file was written and that was asked for.
pub proof fn law_quit_after_saving(e: EditorState, outcome: Outcome, now: u64)
    requires
        e.resumed(outcome, now).1 is Quit,
    ensures
        outcome == (Outcome::Saved { ok: true, quit: true }),
        !e.resumed(outcome, now).0.doc.dirty,
{
}

/// A write that failed leaves the mark of unsaved changes.
pub proof fn law_failed_save_keeps_mark(e: EditorState, quit: bool, now: u64)
    ensures
        e.resumed(Outcome::Saved { ok: false, quit }, now).0.doc == e.doc,
        e.resumed(Outcome::Saved { ok: false, quit }, now).1 is Continue,
{
}

/// Escape turns the command line on, and once more off and empty; the document stays as
/// it is, and nothing is asked for.
pub proof fn law_escape_toggles_commands(e: EditorState, key: Key, now: u64, later: u64)
    requires
        !e.dialog_open(),
        key.code == KeyCode::Esc,
        e.mode == InputMode::Insert,
    ensures
        e.pressed(key, now).0.mode == InputMode::Command,
        e.pressed(key, now).0.command_buffer == seq![':'],
        e.pressed(key, now).1 is Continue,
        e.pressed(key, now).0.pressed(key, later).0.mode == InputMode::Insert,
        e.pressed(key, now).0.pressed(key, later).0.command_buffer.len() == 0,
        e.pressed(key, now).0.pressed(key, later).0.doc == e.doc,
        e.pressed(key, now).0.pressed(key, later).1 is Continue,
{
}

/// The undo key takes back what a key for the text has changed: the document is what
/// it was before that key.
pub proof fn law_undo_key(e: EditorState, key: Key, undo: Key, edit: Edit, now: u64, later: u64)
    requires
        e.wf(),
        e.inserts(key),
        undo.control(),
        undo.code == KeyCode::Char('z'),
        e.doc.reversible(edit),
        match edit {
            Edit::Type(c) => key.typed() == Some(c),
            Edit::Backspace => key.code == KeyCode::Backspace,
            Edit::Break => key.code == KeyCode::Enter,
        },
    ensures
        e.pressed(key, now).0.undoes(undo),
        e.pressed(key, now).0.pressed(undo, later).0.doc == e.doc,
{
    match edit {
        Edit::Type(c) => laws::law_undo_typing(e.doc, c),
        Edit::Backspace => laws::law_undo_backspace(e.doc),
        Edit::Break => laws::law_undo_break(e.doc),
    }
    assert(e.pressed(key, now).0.doc == e.doc.edited(edit));
    assert(e.doc.edited(edit).history.len() > 0) by {
        if edit is Backspace && e.doc.cursor_x > 0 {
            text::lemma_char_range(e.doc.line()[e.doc.cursor_x - 1]);
        }
    }
}

/// What the editor asks for comes to an end: an outcome leads to nothing more, but for
/// the request that waited for the key of the assistant.
pub proof fn law_steps_settle(e: EditorState, outcome: Outcome, now: u64)
    ensures
        e.resumed(outcome, now).1 is Continue || e.resumed(outcome, now).1 is Quit || (
        outcome is GroqKeySaved && e.resumed(outcome, now).1 is AskGroq),
{
}

/// The command line starts with a colon.
pub open spec fn has_prompt(e: EditorState) -> bool {
    e.mode == InputMode::Command ==> e.command_buffer.len() > 0 && e.command_buffer[0] == ':'
}

/// No key takes the colon before a command away.
pub proof fn law_prompt_stays(e: EditorState, key: Key, now: u64)
    requires
        has_prompt(e),
    ensures
        has_prompt(e.pressed(key, now).0),
{
    let b = e.command_buffer;
    if e.mode == InputMode::Command {
        text::lemma_ascii_bytes(b);
        if b.len() == 1 {
            assert(text::ascii(b));
        }
    }
}

/// The file is made executable only if it is a shell script.
pub proof fn law_only_scripts_become_executable(e: EditorState, command: Seq<char>, now: u64)
    requires
        e.commanded(command, now).1 is MakeExecutable,
    ensures
        e.doc.language == Language::Shell,
{
}

/// Making a file executable sets the three bits for it and keeps the others.
pub proof fn law_execution_bits(mode: u32)
    ensures
        command::with_execution(mode) & 0o111 == 0o111,
        command::with_execution(mode) & !0o111u32 == mode & !0o111u32,
{
    assert((mode | 0o111u32) & 0o111u32 == 0o111u32) by (bit_vector);
    assert((mode | 0o111u32) & !0o111u32 == mode & !0o111u32) by (bit_vector);
}

/// No key but that for undoing moves the cursor beyond the end of its line.
pub proof fn law_keys_keep_cursor_in_line(e: EditorState, key: Key, now: u64)
    requires
        e.wf(),
        e.doc.cursor_in_line(),
        !e.undoes(key),
    ensures
        e.pressed(key, now).0.doc.cursor_in_line(),
{
    if e.in_search {
        law_first_match(e.doc, e.search_input, 0);
    }
}

/// The place that a search finds: the text stands there, and at no place before it,
/// neither on an earlier line nor on the same one.
pub proof fn law_first_match(d: Document, query: Seq<char>, from: int)
    requires
        0 <= from,
    ensures
        match d.first_match(query, from) {
            Some((y, x)) => {
                &&& from <= y < d.lines.len()
                &&& text::occurs_at(d.lines[y], query, x)
                &&& forall|j: int| 0 <= j < x ==> !#[trigger] text::occurs_at(d.lines[y], query, j)
                &&& forall|l: int, j: int|
                    from <= l < y && 0 <= j ==> !#[trigger] text::occurs_at(d.lines[l], query, j)
            },
            None => forall|l: int, j: int|
                from <= l < d.lines.len() && 0 <= j ==> !#[trigger] text::occurs_at(
                    d.lines[l],
                    query,
                    j,
                ),
        },
    decreases d.lines.len() - from,
{
    if from < d.lines.len() {
        text::lemma_find_from(d.lines[from], query, 0);
        if text::find_from(d.lines[from], query, 0) is None {
            law_first_match(d, query, from + 1);
        }
    }
}

proof fn lemma_letter_is_no_number(s: Seq<char>)
    requires
        s.len() == 1,
        s[0] != '+',
        number::digit_value(s[0]) is None,
    ensures
        number::number_in(s) is None,
{
    reveal_with_fuel(number::digits_value, 2);
}

proof fn lemma_trimmed_whole(s: Seq<char>)
    requires
        s.len() > 0,
        !text::whitespace(s[0]),
        !text::whitespace(s.last()),
    ensures
        text::trimmed(s) == s,
{
}

/// A command that is a line number, with its colon before it, puts the cursor at the
/// start of that line, if the document has it.
pub proof fn law_line_command(e: EditorState, n: nat, now: u64)
    requires
        n <= usize::MAX,
    ensures
        e.commanded(seq![':'] + number::decimal(n), now) == (
            e.jumped(n as int, now),
            Step::Continue,
        ),
        0 < n <= e.doc.lines.len() ==> e.commanded(
            seq![':'] + number::decimal(n),
            now,
        ).0.doc.cursor_y == n - 1,
        0 < n <= e.doc.lines.len() ==> e.commanded(
            seq![':'] + number::decimal(n),
            now,
        ).0.doc.cursor_x == 0,
{
    let d = number::decimal(n);
    let c = seq![':'] + d;
    number::law_number_reads_back(n);
    number::lemma_decimal(n);
    assert(c.last() == d.last());
    lemma_trimmed_whole(c);
    assert(c.drop_first() =~= d);
    lemma_trimmed_whole(d);
}

/// A message is shown until its time is over, and dropped from then on.
pub proof fn law_message_time(e: EditorState, msg: Seq<char>, seconds: u64, set: u64, now: u64)
    requires
        !e.confirm_exit,
        !e.in_search,
        e.mode == InputMode::Insert,
    ensures
        !e.with_status(msg, seconds, set).expired(now) ==> e.with_status(
            msg,
            seconds,
            set,
        ).status_line(now) == msg,
        e.with_status(msg, seconds, set).expired(now) ==> e.with_status(
            msg,
            seconds,
            set,
        ).status_line(now) == (EditorState { temp_status: None, ..e }).status_line(now),
        set <= now ==> (e.with_status(msg, seconds, set).expired(now) <==> now - set >= seconds
            * 1_000_000_000),
{
}

/// The wait for a key never outlasts the message, nor a quarter of a second.
pub proof fn law_wait_is_short(e: EditorState, now: u64)
    ensures
        0 < e.wait_time(now) <= 250_000_000,
        e.temp_status is Some && !e.expired(now) ==> now + e.wait_time(now) <= (
        e.temp_status->0).1,
{
}

} // verus!
