//! What each key, command and outcome does, dialog by dialog: which fields of the editor
//! change, to what, and what the editor asks for.

use crate::command;
use crate::command::{ChmodOutcome, Outcome, ProgramOutcome, Step};
use crate::groq;
use crate::keyboard::{Key, KeyCode};
use crate::language::Language;
use crate::lines;
use crate::number;
use crate::program;
use crate::state::{Document, EditorState, InputMode};
use crate::text;
use crate::text_laws;
use vstd::prelude::*;

verus! {

// ---------------------------------------------------------------------------
// The view of a reply, and the question whether to leave
// ---------------------------------------------------------------------------

/// In the view of a reply, escape closes it, the arrows move it by one line as far as
/// there is one, and every other key does nothing.
pub proof fn law_reply_view_keys(e: EditorState, key: Key, now: u64)
    requires
        e.ai_output is Some,
    ensures
        e.pressed(key, now).1 is Continue,
        key.code == KeyCode::Esc ==> e.pressed(key, now).0 == (EditorState {
            ai_output: None,
            needs_redraw: true,
            force_full_redraw: true,
            ..e
        }),
        key.code == KeyCode::Up && e.ai_scroll > 0 ==> e.pressed(key, now).0 == (EditorState {
            ai_scroll: e.ai_scroll - 1,
            needs_redraw: true,
            ..e
        }),
        key.code == KeyCode::Up && e.ai_scroll <= 0 ==> e.pressed(key, now).0 == e,
        key.code == KeyCode::Down && e.ai_scroll < e.ai_output->0.len() - 1 ==> e.pressed(
            key,
            now,
        ).0 == (EditorState { ai_scroll: e.ai_scroll + 1, needs_redraw: true, ..e }),
        key.code == KeyCode::Down && e.ai_scroll >= e.ai_output->0.len() - 1 ==> e.pressed(
            key,
            now,
        ).0 == e,
        key.code != KeyCode::Esc && key.code != KeyCode::Up && key.code != KeyCode::Down
            ==> e.pressed(key, now).0 == e,
{
}

/// The question whether to leave: y leaves, n and escape go back to the text with a
/// message, and every other key leaves the question open.
pub proof fn law_exit_question(e: EditorState, key: Key, now: u64)
    requires
        e.ai_output is None,
        e.confirm_exit,
    ensures
        key.code == KeyCode::Char('y') || key.code == KeyCode::Char('Y') ==> e.pressed(key, now) == (
            e,
            Step::Quit,
        ),
        key.code == KeyCode::Char('n') || key.code == KeyCode::Char('N') || key.code
            == KeyCode::Esc ==> e.pressed(key, now) == (
            EditorState {
                confirm_exit: false,
                temp_status: Some(("Exit cancelled"@, now + 3_000_000_000)),
                needs_redraw: true,
                ..e
            },
            Step::Continue,
        ),
        key.code != KeyCode::Char('y') && key.code != KeyCode::Char('Y') && key.code
            != KeyCode::Char('n') && key.code != KeyCode::Char('N') && key.code != KeyCode::Esc
            ==> e.pressed(key, now) == (e, Step::Continue),
{
}

// ---------------------------------------------------------------------------
// Searching
// ---------------------------------------------------------------------------

/// While a search is typed, a character is added to it, backspace takes its last one
/// away, escape drops it with a message, and keys without a meaning do nothing.
pub proof fn law_search_entry(e: EditorState, key: Key, now: u64)
    requires
        e.ai_output is None,
        !e.confirm_exit,
        e.in_search,
    ensures
        e.pressed(key, now).1 is Continue,
        key.modifiers & 2u8 != 2u8 ==> (key.code matches KeyCode::Char(c) ==> e.pressed(key, now).0
            == (EditorState {
            search_input: e.search_input.push(c),
            needs_redraw: true,
            ..e
        })),
        key.code == KeyCode::Backspace ==> e.pressed(key, now).0 == (EditorState {
            search_input: e.search_input.take(
                if e.search_input.len() > 0 {
                    e.search_input.len() - 1
                } else {
                    0
                },
            ),
            needs_redraw: true,
            ..e
        }),
        key.code == KeyCode::Esc ==> e.pressed(key, now).0 == (EditorState {
            in_search: false,
            search_input: Seq::empty(),
            temp_status: Some(("Find cancelled"@, now + 3_000_000_000)),
            needs_redraw: true,
            ..e
        }),
        key.code == KeyCode::Enter && e.search_input.len() == 0 ==> e.pressed(key, now).0 == (
        EditorState { in_search: false, needs_redraw: true, ..e }),
        key.code is Char && key.modifiers & 2u8 == 2u8 ==> e.pressed(key, now).0 == e,
        key.code == KeyCode::Up || key.code == KeyCode::Down || key.code == KeyCode::Left
            || key.code == KeyCode::Right || key.code == KeyCode::Other ==> e.pressed(key, now).0
            == e,
{
    assert(e.search_input.take(0) =~= Seq::<char>::empty());
    if e.search_input.len() > 0 {
        assert(e.search_input.drop_last() =~= e.search_input.take(e.search_input.len() - 1));
    } else {
        assert(e.search_input =~= Seq::<char>::empty());
    }
}

/// Enter ends a search for a text that some line holds with the cursor on its first
/// place, wherever the cursor stood before: the text stands there, character by
/// character, and neither before it on the same line nor on a line above. What was
/// searched for is set off from now on, and a message says that it was found; the rest of
/// the editor stays as it is.
pub proof fn law_search_moves_to_match(e: EditorState, key: Key, now: u64, l: int, j: int)
    requires
        e.ai_output is None,
        !e.confirm_exit,
        e.in_search,
        key.code == KeyCode::Enter,
        e.search_input.len() > 0,
        0 <= l < e.doc.lines.len(),
        text_laws::stands(e.doc.lines[l], e.search_input, j),
    ensures
        ({
            let d = e.pressed(key, now).0.doc;
            &&& 0 <= d.cursor_y <= l
            &&& text_laws::stands(e.doc.lines[d.cursor_y], e.search_input, d.cursor_x)
            &&& forall|i: int|
                0 <= i < d.cursor_x ==> !#[trigger] text_laws::stands(
                    e.doc.lines[d.cursor_y],
                    e.search_input,
                    i,
                )
            &&& forall|m: int, i: int|
                0 <= m < d.cursor_y && 0 <= i ==> !#[trigger] text_laws::stands(
                    e.doc.lines[m],
                    e.search_input,
                    i,
                )
        }),
        e.pressed(key, now).0 == (EditorState {
            doc: Document {
                cursor_x: e.pressed(key, now).0.doc.cursor_x,
                cursor_y: e.pressed(key, now).0.doc.cursor_y,
                ..e.doc
            },
            in_search: false,
            search_highlight: e.search_input,
            temp_status: Some(("Found '"@ + e.search_input + "'"@, now + 5_000_000_000)),
            needs_redraw: true,
            force_full_redraw: true,
            ..e
        }),
        e.pressed(key, now).1 is Continue,
{
    law_first_match_stands(e.doc, e.search_input, 0);
}

/// Enter ends a search for a text that no line holds with a message; the cursor stays.
pub proof fn law_search_without_match(e: EditorState, key: Key, now: u64)
    requires
        e.ai_output is None,
        !e.confirm_exit,
        e.in_search,
        key.code == KeyCode::Enter,
        e.search_input.len() > 0,
        forall|m: int, i: int|
            0 <= m < e.doc.lines.len() && 0 <= i ==> !#[trigger] text_laws::stands(
                e.doc.lines[m],
                e.search_input,
                i,
            ),
    ensures
        e.pressed(key, now) == (
            EditorState {
                in_search: false,
                search_highlight: e.search_input,
                temp_status: Some(("'"@ + e.search_input + "' not found"@, now + 5_000_000_000)),
                needs_redraw: true,
                force_full_redraw: true,
                ..e
            },
            Step::Continue,
        ),
{
    law_first_match_stands(e.doc, e.search_input, 0);
}

/// The first place of a text in a document, from a line on.
pub proof fn law_first_match_stands(d: Document, query: Seq<char>, from: int)
    requires
        0 <= from,
    ensures
        d.first_match(query, from) matches Some((y, x)) ==> {
            &&& from <= y < d.lines.len()
            &&& text_laws::stands(d.lines[y], query, x)
            &&& forall|i: int| 0 <= i < x ==> !#[trigger] text_laws::stands(d.lines[y], query, i)
            &&& forall|m: int, i: int|
                from <= m < y && 0 <= i ==> !#[trigger] text_laws::stands(d.lines[m], query, i)
        },
        d.first_match(query, from) is None ==> forall|m: int, i: int|
            from <= m < d.lines.len() && 0 <= i ==> !#[trigger] text_laws::stands(
                d.lines[m],
                query,
                i,
            ),
    decreases d.lines.len() - from,
{
    if from < d.lines.len() {
        text_laws::law_find_is_first(d.lines[from], query, 0);
        if text::find_from(d.lines[from], query, 0) is None {
            law_first_match_stands(d, query, from + 1);
        }
    }
}

// ---------------------------------------------------------------------------
// Shortcuts
// ---------------------------------------------------------------------------

/// The shortcuts, while no dialog is open, whatever is typed: Ctrl+X asks whether to
/// leave, Ctrl+S asks for the text of the document to be written, Ctrl+F starts a search
/// with what was searched for last, and Ctrl+Z undoes the last change or says that there
/// is none.
pub proof fn law_shortcuts(e: EditorState, key: Key, now: u64)
    requires
        e.ai_output is None,
        !e.confirm_exit,
        !e.in_search,
        key.modifiers & 2u8 == 2u8,
    ensures
        key.code == KeyCode::Char('x') ==> e.pressed(key, now) == (
            EditorState { confirm_exit: true, needs_redraw: true, ..e },
            Step::Continue,
        ),
        key.code == KeyCode::Char('s') ==> e.pressed(key, now) == (
            EditorState { needs_redraw: true, ..e },
            Step::Save { text: lines::joined(e.doc.lines), quit: false },
        ),
        key.code == KeyCode::Char('f') ==> e.pressed(key, now) == (
            EditorState {
                in_search: true,
                search_input: e.search_highlight,
                needs_redraw: true,
                ..e
            },
            Step::Continue,
        ),
        key.code == KeyCode::Char('z') && e.doc.history.len() > 0 ==> e.pressed(key, now) == (
            EditorState {
                doc: e.doc.undone(),
                temp_status: Some(("Undid last edit"@, now + 3_000_000_000)),
                needs_redraw: true,
                force_full_redraw: true,
                ..e
            },
            Step::Continue,
        ),
        key.code == KeyCode::Char('z') && e.doc.history.len() == 0 ==> e.pressed(key, now) == (
            EditorState {
                temp_status: Some(("Nothing to undo"@, now + 3_000_000_000)),
                needs_redraw: true,
                force_full_redraw: true,
                ..e
            },
            Step::Continue,
        ),
        key.code is Char && key.code != KeyCode::Char('x') && key.code != KeyCode::Char('s')
            && key.code != KeyCode::Char('f') && key.code != KeyCode::Char('z') ==> e.pressed(
            key,
            now,
        ) == (e, Step::Continue),
{
}

// ---------------------------------------------------------------------------
// Text
// ---------------------------------------------------------------------------

/// While text is typed, a character is typed at the cursor, backspace and enter edit, and
/// escape starts a command; the rest of the editor stays as it is.
pub proof fn law_text_keys(e: EditorState, key: Key, now: u64)
    requires
        e.ai_output is None,
        !e.confirm_exit,
        !e.in_search,
        e.mode == InputMode::Insert,
    ensures
        key.modifiers & 2u8 != 2u8 ==> (key.code matches KeyCode::Char(c) ==> e.pressed(key, now)
            == (
            EditorState {
                doc: e.doc.inserted(c),
                needs_redraw: true,
                force_full_redraw: true,
                ..e
            },
            Step::Continue,
        )),
        key.code == KeyCode::Backspace ==> e.pressed(key, now) == (
            EditorState {
                doc: e.doc.backspaced(),
                needs_redraw: true,
                force_full_redraw: true,
                ..e
            },
            Step::Continue,
        ),
        key.code == KeyCode::Enter ==> e.pressed(key, now) == (
            EditorState { doc: e.doc.broken(), needs_redraw: true, force_full_redraw: true, ..e },
            Step::Continue,
        ),
        key.code == KeyCode::Esc ==> e.pressed(key, now) == (
            EditorState {
                mode: InputMode::Command,
                command_buffer: seq![':'],
                temp_status: Some(("Command mode"@, now + 3_000_000_000)),
                needs_redraw: true,
                ..e
            },
            Step::Continue,
        ),
        key.code == KeyCode::Other ==> e.pressed(key, now) == (e, Step::Continue),
{
}

/// The arrow keys while text is typed. Up and down go to the next line, to the same
/// column or the end of a shorter line; left and right go to the next place, over the
/// ends of lines too. At the ends of the document they stay. Nothing but the cursor
/// moves.
pub proof fn law_arrow_keys(e: EditorState, key: Key, now: u64)
    requires
        e.ai_output is None,
        !e.confirm_exit,
        !e.in_search,
        e.mode == InputMode::Insert,
        0 <= e.doc.cursor_y < e.doc.lines.len(),
        0 <= e.doc.cursor_x,
        key.code == KeyCode::Up || key.code == KeyCode::Down || key.code == KeyCode::Left
            || key.code == KeyCode::Right,
    ensures
        ({
            let a = e.pressed(key, now).0;
            let y = e.doc.cursor_y;
            let x = e.doc.cursor_x;
            let line = e.doc.lines[y];
            let last = e.doc.lines.len() - 1;
            &&& e.pressed(key, now).1 is Continue
            &&& a == (EditorState {
                doc: Document { cursor_x: a.doc.cursor_x, cursor_y: a.doc.cursor_y, ..e.doc },
                needs_redraw: a.needs_redraw,
                ..e
            })
            &&& (a.doc.cursor_y != y || a.doc.cursor_x != x || e.needs_redraw) ==> a.needs_redraw
            &&& key.code == KeyCode::Left || key.code == KeyCode::Right ==> a.needs_redraw
            &&& key.code == KeyCode::Up && y > 0 ==> {
                &&& a.needs_redraw
                &&& a.doc.cursor_y == y - 1
                &&& x <= e.doc.lines[y - 1].len() ==> a.doc.cursor_x == x
                &&& x >= e.doc.lines[y - 1].len() ==> a.doc.cursor_x == e.doc.lines[y - 1].len()
            }
            &&& key.code == KeyCode::Down && y < last ==> {
                &&& a.needs_redraw
                &&& a.doc.cursor_y == y + 1
                &&& x <= e.doc.lines[y + 1].len() ==> a.doc.cursor_x == x
                &&& x >= e.doc.lines[y + 1].len() ==> a.doc.cursor_x == e.doc.lines[y + 1].len()
            }
            &&& key.code == KeyCode::Up && y == 0 ==> a == e
            &&& key.code == KeyCode::Down && y == last ==> a == e
            &&& key.code == KeyCode::Left && x > 0 ==> a.doc.cursor_y == y && a.doc.cursor_x == x
                - 1
            &&& key.code == KeyCode::Left && x == 0 && y > 0 ==> a.doc.cursor_y == y - 1
                && a.doc.cursor_x == e.doc.lines[y - 1].len()
            &&& key.code == KeyCode::Left && x == 0 && y == 0 ==> a.doc == e.doc
            &&& key.code == KeyCode::Right && x < line.len() ==> a.doc.cursor_y == y
                && a.doc.cursor_x == x + 1
            &&& key.code == KeyCode::Right && x >= line.len() && y < last ==> a.doc.cursor_y == y + 1
                && a.doc.cursor_x == 0
            &&& key.code == KeyCode::Right && x >= line.len() && y == last ==> a.doc == e.doc
        }),
{
}

// ---------------------------------------------------------------------------
// Typing a command or a key
// ---------------------------------------------------------------------------

/// While a command is typed, a character is added to it, backspace takes its last one
/// away as long as more than one byte is left, escape drops it with a message, and enter
/// carries it out with the command line closed; other keys do nothing.
pub proof fn law_command_entry(e: EditorState, key: Key, now: u64)
    requires
        e.ai_output is None,
        !e.confirm_exit,
        !e.in_search,
        e.mode == InputMode::Command,
    ensures
        key.modifiers & 2u8 != 2u8 ==> (key.code matches KeyCode::Char(c) ==> e.pressed(key, now)
            == (
            EditorState { command_buffer: e.command_buffer.push(c), needs_redraw: true, ..e },
            Step::Continue,
        )),
        key.code == KeyCode::Backspace && e.command_buffer.len() > 1 ==> e.pressed(key, now) == (
            EditorState {
                command_buffer: e.command_buffer.take(e.command_buffer.len() - 1),
                needs_redraw: true,
                ..e
            },
            Step::Continue,
        ),
        key.code == KeyCode::Backspace && e.command_buffer == seq![':'] ==> e.pressed(key, now) == (
            EditorState { needs_redraw: true, ..e },
            Step::Continue,
        ),
        key.code == KeyCode::Esc ==> e.pressed(key, now) == (
            EditorState {
                mode: InputMode::Insert,
                command_buffer: Seq::empty(),
                temp_status: Some(("Command cancelled"@, now + 3_000_000_000)),
                needs_redraw: true,
                ..e
            },
            Step::Continue,
        ),
        key.code == KeyCode::Enter ==> e.pressed(key, now) == (EditorState {
            mode: InputMode::Insert,
            command_buffer: Seq::empty(),
            needs_redraw: true,
            ..e
        }).commanded(e.command_buffer, now),
        key.code == KeyCode::Up || key.code == KeyCode::Down || key.code == KeyCode::Left
            || key.code == KeyCode::Right || key.code == KeyCode::Other ==> e.pressed(key, now) == (
            e,
            Step::Continue,
        ),
{
    let b = e.command_buffer;
    text::lemma_ascii_bytes(b);
    if b.len() > 1 {
        assert(b.drop_last() =~= b.take(b.len() - 1));
    }
    if b == seq![':'] {
        assert(text::ascii(b));
    }
}

/// While the key of the assistant is typed, a character is added to it, backspace takes
/// its last one away, escape drops it and the request that waits for it, and enter asks
/// for it to be stored without the white space around it, unless nothing else is there.
pub proof fn law_key_entry(e: EditorState, key: Key, now: u64)
    requires
        e.ai_output is None,
        !e.confirm_exit,
        !e.in_search,
        e.mode == InputMode::AwaitGroqKey,
    ensures
        key.modifiers & 2u8 != 2u8 ==> (key.code matches KeyCode::Char(c) ==> e.pressed(key, now)
            == (
            EditorState { groq_key_buffer: e.groq_key_buffer.push(c), needs_redraw: true, ..e },
            Step::Continue,
        )),
        key.code == KeyCode::Backspace && e.groq_key_buffer.len() > 0 ==> e.pressed(key, now) == (
            EditorState {
                groq_key_buffer: e.groq_key_buffer.take(e.groq_key_buffer.len() - 1),
                needs_redraw: true,
                ..e
            },
            Step::Continue,
        ),
        key.code == KeyCode::Backspace && e.groq_key_buffer.len() == 0 ==> e.pressed(key, now) == (
            EditorState { needs_redraw: true, ..e },
            Step::Continue,
        ),
        key.code == KeyCode::Esc ==> e.pressed(key, now) == (
            EditorState {
                mode: InputMode::Insert,
                groq_key_buffer: Seq::empty(),
                pending_ai_request: None,
                temp_status: Some(("Groq key entry cancelled"@, now + 3_000_000_000)),
                needs_redraw: true,
                ..e
            },
            Step::Continue,
        ),
        key.code == KeyCode::Enter && text_laws::blank(e.groq_key_buffer) ==> e.pressed(key, now)
            == (
            EditorState {
                temp_status: Some(("Groq API key cannot be empty"@, now + 3_000_000_000)),
                needs_redraw: true,
                ..e
            },
            Step::Continue,
        ),
        key.code == KeyCode::Enter && !text_laws::blank(e.groq_key_buffer) ==> e.pressed(key, now)
            == (e, Step::SaveGroqKey { key: text::trimmed(e.groq_key_buffer) }),
        key.code == KeyCode::Up || key.code == KeyCode::Down || key.code == KeyCode::Left
            || key.code == KeyCode::Right || key.code == KeyCode::Other ==> e.pressed(key, now) == (
            e,
            Step::Continue,
        ),
{
    let b = e.groq_key_buffer;
    if b.len() > 0 {
        assert(b.drop_last() =~= b.take(b.len() - 1));
    }
    text_laws::lemma_blank_trimmed(b);
}

// ---------------------------------------------------------------------------
// Commands
// ---------------------------------------------------------------------------

/// A command may have white space around it and behind its colon, and may do without the
/// colon.
pub proof fn law_command_word(a: Seq<char>, b: Seq<char>, word: Seq<char>, c: Seq<char>)
    requires
        text_laws::blank(a),
        text_laws::blank(b),
        text_laws::blank(c),
        text_laws::tight(word),
    ensures
        command::command_word(a.push(':') + b + word + c) == word,
        word.len() > 0 && word[0] != ':' ==> command::command_word(a + word + c) == word,
        command::command_word(a + b + c).len() == 0,
{
    let inner = seq![':'] + b + word;
    let none = Seq::<char>::empty();
    if word.len() > 0 {
        assert(inner.last() == word.last());
        assert(inner[0] == ':');
        assert(a.push(':') + b + word + c =~= a + inner + c);
        text_laws::law_trimmed_between(a, inner, c);
        assert(inner.drop_first() =~= b + word + none);
        text_laws::law_trimmed_between(b, word, none);
        text_laws::law_trimmed_between(a, word, c);
        assert(word =~= none + word + none);
        text_laws::law_trimmed_between(none, word, none);
    } else {
        let colon = seq![':'];
        let bc = b + c;
        assert(text_laws::blank(bc));
        assert(a.push(':') + b + word + c =~= a + colon + bc);
        text_laws::law_trimmed_between(a, colon, bc);
        assert(colon.drop_first() =~= none + none + none);
        text_laws::law_trimmed_between(none, none, none);
        assert(word =~= none);
    }
    let abc = a + b + c;
    assert(text_laws::blank(abc));
    assert(abc =~= abc + none + none);
    text_laws::law_trimmed_between(abc, none, none);
    assert(none =~= none + none + none);
    text_laws::law_trimmed_between(none, none, none);
}

proof fn lemma_command_literals()
    ensures
        "w"@ =~= seq!['w'],
        "q"@ =~= seq!['q'],
        "q!"@ =~= seq!['q', '!'],
        "wq"@ =~= seq!['w', 'q'],
        "x"@ =~= seq!['x'],
        "wq!"@ =~= seq!['w', 'q', '!'],
        "chmod"@ =~= seq!['c', 'h', 'm', 'o', 'd'],
        "!"@ =~= seq!['!'],
        "ai"@ =~= seq!['a', 'i'],
{
    reveal_strlit("w");
    reveal_strlit("q");
    reveal_strlit("q!");
    reveal_strlit("wq");
    reveal_strlit("x");
    reveal_strlit("wq!");
    reveal_strlit("chmod");
    reveal_strlit("!");
    reveal_strlit("ai");
}

/// The commands that write and leave: `w` asks for the text to be written; `wq`, `x` and
/// `wq!` ask for the same and to leave then; `q` leaves a document that is not marked as
/// changed and tells so of one that is; `q!` leaves. Nothing else changes.
pub proof fn law_write_and_quit_commands(e: EditorState, command: Seq<char>, now: u64)
    ensures
        command::command_word(command) == seq!['w'] ==> e.commanded(command, now) == (
            e,
            Step::Save { text: lines::joined(e.doc.lines), quit: false },
        ),
        command::command_word(command) == seq!['w', 'q'] || command::command_word(command) == seq![
            'x',
        ] || command::command_word(command) == seq!['w', 'q', '!'] ==> e.commanded(command, now)
            == (e, Step::Save { text: lines::joined(e.doc.lines), quit: true }),
        command::command_word(command) == seq!['q'] && !e.doc.dirty ==> e.commanded(command, now)
            == (e, Step::Quit),
        command::command_word(command) == seq!['q'] && e.doc.dirty ==> e.commanded(command, now) == (
            EditorState {
                temp_status: Some(
                    ("Unsaved changes. Use :q! to quit anyway."@, now + 3_000_000_000),
                ),
                ..e
            },
            Step::Continue,
        ),
        command::command_word(command) == seq!['q', '!'] ==> e.commanded(command, now) == (
            e,
            Step::Quit,
        ),
{
    let raw = command::command_word(command);
    lemma_command_literals();
    assert(seq!['w'][0] == 'w' && seq!['x'][0] == 'x' && seq!['q'][0] == 'q');
    assert(seq!['w', 'q'][0] == 'w' && seq!['w', 'q', '!'][0] == 'w' && seq!['q', '!'][0] == 'q');
    if raw.len() > 0 && (raw[0] == 'w' || raw[0] == 'q' || raw[0] == 'x') {
        text_laws::lemma_word_is_no_number(raw);
    }
}

/// The command `chmod` asks for a shell script to be made executable, and refuses every
/// other file with a message.
pub proof fn law_chmod_command(e: EditorState, command: Seq<char>, now: u64)
    requires
        command::command_word(command) == seq!['c', 'h', 'm', 'o', 'd'],
    ensures
        e.doc.language == Language::Shell ==> e.commanded(command, now) == (
            e,
            Step::MakeExecutable,
        ),
        e.doc.language != Language::Shell ==> e.commanded(command, now) == (
            EditorState {
                temp_status: Some(
                    ("Error: :chmod only works for .sh files"@, now + 3_000_000_000),
                ),
                ..e
            },
            Step::Continue,
        ),
{
    let raw = command::command_word(command);
    lemma_command_literals();
    assert(raw[0] == 'c');
    text_laws::lemma_word_is_no_number(raw);
}

/// A command that is a number goes to the start of the line with that number, counted
/// from one, and says so; a number that no line has is told, and nothing moves.
pub proof fn law_number_command(e: EditorState, command: Seq<char>, n: nat, now: u64)
    requires
        number::number_in(command::command_word(command)) == Some(n),
    ensures
        1 <= n <= e.doc.lines.len() ==> e.commanded(command, now) == (
            EditorState {
                doc: Document { cursor_y: n - 1, cursor_x: 0, ..e.doc },
                temp_status: Some(
                    ("Jumped to line "@ + number::decimal(n), now + 3_000_000_000),
                ),
                needs_redraw: true,
                force_full_redraw: true,
                ..e
            },
            Step::Continue,
        ),
        n == 0 || n > e.doc.lines.len() ==> e.commanded(command, now) == (
            EditorState {
                temp_status: Some(
                    (
                        "Line "@ + number::decimal(n) + " is out of bounds (max: "@
                            + number::decimal(e.doc.lines.len()) + ")"@,
                        now + 3_000_000_000,
                    ),
                ),
                ..e
            },
            Step::Continue,
        ),
{
    text_laws::law_what_is_no_number(command::command_word(command));
}

/// A command of an exclamation mark and a shell command asks for that command to be run,
/// without the white space around it; without a shell command it is answered by how to
/// use it.
pub proof fn law_shell_command(e: EditorState, command: Seq<char>, a: Seq<char>, shell: Seq<char>, now: u64)
    requires
        text_laws::blank(a),
        text_laws::tight(shell),
        command::command_word(command) == seq!['!'] + a + shell,
    ensures
        shell.len() > 0 ==> e.commanded(command, now) == (e, Step::RunShell { command: shell }),
        shell.len() == 0 ==> e.commanded(command, now) == (
            EditorState {
                temp_status: Some(("Usage: :!<shell command>"@, now + 3_000_000_000)),
                ..e
            },
            Step::Continue,
        ),
{
    let raw = command::command_word(command);
    let none = Seq::<char>::empty();
    lemma_command_literals();
    assert(raw[0] == '!');
    assert(seq!['w'][0] == 'w' && seq!['x'][0] == 'x' && seq!['q'][0] == 'q');
    assert(seq!['w', 'q'][0] == 'w' && seq!['w', 'q', '!'][0] == 'w' && seq!['q', '!'][0] == 'q');
    assert(seq!['c', 'h', 'm', 'o', 'd'][0] == 'c');
    text_laws::lemma_word_is_no_number(raw);
    assert(raw.take(1) =~= seq!['!']);
    assert(raw.skip(1) =~= a + shell + none);
    text_laws::law_trimmed_between(a, shell, none);
    assert(shell =~= none + shell + none);
    text_laws::law_trimmed_between(none, shell, none);
}

/// A command that starts with `ai` puts what follows, without the white space around it,
/// to the assistant, or the usual request if nothing follows; as long as there is no key,
/// it asks for one and keeps the request.
pub proof fn law_assistant_command(
    e: EditorState,
    command: Seq<char>,
    a: Seq<char>,
    request: Seq<char>,
    now: u64,
)
    requires
        text_laws::blank(a),
        text_laws::tight(request),
        command::command_word(command) == seq!['a', 'i'] + a + request,
    ensures
        ({
            let asked = if request.len() == 0 {
                "Review this file and suggest fixes."@
            } else {
                request
            };
            &&& e.groq_api_key matches Some(key) ==> e.commanded(command, now) == (
                e,
                Step::AskGroq { key, request: asked },
            )
            &&& e.groq_api_key is None ==> e.commanded(command, now) == (
                EditorState {
                    pending_ai_request: Some(asked),
                    mode: InputMode::AwaitGroqKey,
                    groq_key_buffer: Seq::empty(),
                    temp_status: Some(("Enter Groq API key"@, now + 3_000_000_000)),
                    needs_redraw: true,
                    ..e
                },
                Step::Continue,
            )
        }),
{
    let raw = command::command_word(command);
    let none = Seq::<char>::empty();
    lemma_command_literals();
    assert(raw[0] == 'a');
    assert(seq!['w'][0] == 'w' && seq!['x'][0] == 'x' && seq!['q'][0] == 'q');
    assert(seq!['w', 'q'][0] == 'w' && seq!['w', 'q', '!'][0] == 'w' && seq!['q', '!'][0] == 'q');
    assert(seq!['c', 'h', 'm', 'o', 'd'][0] == 'c');
    assert(raw.take(1)[0] == 'a');
    assert(seq!['!'][0] == '!');
    text_laws::lemma_word_is_no_number(raw);
    assert(raw.take(2) =~= seq!['a', 'i']);
    assert(raw.skip(2) =~= a + request + none);
    text_laws::law_trimmed_between(a, request, none);
    assert(request =~= none + request + none);
    text_laws::law_trimmed_between(none, request, none);
}

/// An empty command, and one that is none of the others, are told, and nothing else
/// happens.
pub proof fn law_other_commands(e: EditorState, command: Seq<char>, now: u64)
    ensures
        command::command_word(command).len() == 0 ==> e.commanded(command, now) == (
            EditorState { temp_status: Some(("Empty command"@, now + 3_000_000_000)), ..e },
            Step::Continue,
        ),
        ({
            let raw = command::command_word(command);
            raw.len() > 0 && number::number_in(raw) is None && raw != seq!['w'] && raw != seq!['q']
                && raw != seq!['q', '!'] && raw != seq!['w', 'q'] && raw != seq!['x'] && raw != seq![
                'w',
                'q',
                '!',
            ] && raw != seq!['c', 'h', 'm', 'o', 'd'] && raw[0] != '!' && !(raw.len() >= 2 && raw[0]
                == 'a' && raw[1] == 'i') ==> e.commanded(command, now) == (
                EditorState {
                    temp_status: Some(("Unknown command: :"@ + raw, now + 3_000_000_000)),
                    ..e
                },
                Step::Continue,
            )
        }),
{
    let raw = command::command_word(command);
    lemma_command_literals();
    if raw.len() > 0 {
        assert(raw.take(1)[0] == raw[0]);
        assert(seq!['!'][0] == '!');
    }
    if raw.len() >= 2 {
        assert(raw.take(2)[0] == raw[0]);
        assert(raw.take(2)[1] == raw[1]);
        assert(seq!['a', 'i'][0] == 'a' && seq!['a', 'i'][1] == 'i');
    }
}

// ---------------------------------------------------------------------------
// Outcomes
// ---------------------------------------------------------------------------

/// A write that went well takes the mark away and says so, and leaves if that was asked
/// for; one that failed is told, and nothing else changes.
pub proof fn law_save_outcomes(e: EditorState, quit: bool, now: u64)
    ensures
        e.resumed(Outcome::Saved { ok: true, quit }, now).0 == (EditorState {
            doc: e.doc.saved(),
            temp_status: Some(("SAVED: "@ + e.filename, now + 3_000_000_000)),
            ..e
        }),
        quit ==> e.resumed(Outcome::Saved { ok: true, quit }, now).1 is Quit,
        !quit ==> e.resumed(Outcome::Saved { ok: true, quit }, now).1 is Continue,
        e.resumed(Outcome::Saved { ok: false, quit }, now) == (
            EditorState {
                temp_status: Some(("Save failed: "@ + e.filename, now + 3_000_000_000)),
                ..e
            },
            Step::Continue,
        ),
{
}

/// Making the file executable is told as it went, and changes nothing in the editor.
pub proof fn law_chmod_outcomes(e: EditorState, change: ChmodOutcome, now: u64)
    ensures
        e.resumed(Outcome::Chmod { change }, now) == (
            EditorState {
                temp_status: Some(
                    (
                        if change == ChmodOutcome::Applied {
                            "Permission worked: +x applied"@
                        } else if change == ChmodOutcome::WriteFailed {
                            "Permission failed: Failed to write permissions"@
                        } else if change == ChmodOutcome::NoFile {
                            "Permission failed: Save the file first!"@
                        } else {
                            "Permission failed: chmod not supported on this OS"@
                        },
                        now + 3_000_000_000,
                    ),
                ),
                ..e
            },
            Step::Continue,
        ),
{
}

/// What a shell command printed is told: what it printed of one kind if it printed none
/// of the other, both with a bar in between, each without the white space around it, or
/// that it printed nothing.
pub proof fn law_shell_notes(
    a: Seq<char>,
    out: Seq<char>,
    b: Seq<char>,
    c: Seq<char>,
    err: Seq<char>,
    d: Seq<char>,
)
    requires
        text_laws::blank(a),
        text_laws::blank(b),
        text_laws::blank(c),
        text_laws::blank(d),
        text_laws::tight(out),
        text_laws::tight(err),
    ensures
        ({
            let note = command::shell_note(a + out + b, c + err + d);
            &&& out.len() > 0 && err.len() > 0 ==> note == out + seq![' ', '|', ' '] + err
            &&& out.len() > 0 && err.len() == 0 ==> note == out
            &&& out.len() == 0 && err.len() > 0 ==> note == err
            &&& out.len() == 0 && err.len() == 0 ==> note == "[shell command produced no output]"@
        }),
{
    reveal_strlit(" | ");
    assert(" | "@ =~= seq![' ', '|', ' ']);
    text_laws::law_trimmed_between(a, out, b);
    text_laws::law_trimmed_between(c, err, d);
}

/// A shell command that ran is told by what it printed, whether it succeeded or not, and
/// one that did not start by why; nothing else changes.
pub proof fn law_shell_outcomes(e: EditorState, program: ProgramOutcome, now: u64)
    ensures
        program matches ProgramOutcome::Finished { success, stdout, stderr } ==> e.resumed(
            Outcome::Shell { program },
            now,
        ) == (
            EditorState {
                temp_status: Some(
                    (
                        command::shell_note(
                            program::printed_text(stdout@),
                            program::printed_text(stderr@),
                        ),
                        now + 3_000_000_000,
                    ),
                ),
                ..e
            },
            Step::Continue,
        ),
        program matches ProgramOutcome::NotStarted { error } ==> e.resumed(
            Outcome::Shell { program },
            now,
        ) == (
            EditorState {
                temp_status: Some(("Shell command failed: "@ + error@, now + 3_000_000_000)),
                ..e
            },
            Step::Continue,
        ),
{
}

/// A key that was stored is kept, the entry of it is closed, and the request that waited
/// for it is put; one that could not be stored is told, and the entry stays open.
pub proof fn law_key_outcomes(e: EditorState, key: String, now: u64)
    ensures
        ({
            let kept = EditorState {
                groq_api_key: Some(key@),
                mode: InputMode::Insert,
                groq_key_buffer: Seq::empty(),
                pending_ai_request: None,
                temp_status: Some(("Groq API key saved"@, now + 3_000_000_000)),
                needs_redraw: true,
                ..e
            };
            &&& e.resumed(Outcome::GroqKeySaved { key, ok: true }, now).0 == kept
            &&& e.pending_ai_request is None ==> e.resumed(
                Outcome::GroqKeySaved { key, ok: true },
                now,
            ).1 is Continue
            &&& e.pending_ai_request matches Some(r) ==> !text_laws::blank(r) ==> e.resumed(
                Outcome::GroqKeySaved { key, ok: true },
                now,
            ).1 == (Step::AskGroq { key: key@, request: r })
            &&& e.pending_ai_request matches Some(r) ==> text_laws::blank(r) ==> e.resumed(
                Outcome::GroqKeySaved { key, ok: true },
                now,
            ).1 == (Step::AskGroq {
                key: key@,
                request: "Review this file and suggest fixes."@,
            })
            &&& e.resumed(Outcome::GroqKeySaved { key, ok: false }, now) == (
                EditorState {
                    temp_status: Some(("Failed to save Groq API key"@, now + 3_000_000_000)),
                    needs_redraw: true,
                    ..e
                },
                Step::Continue,
            )
        }),
{
    if let Some(r) = e.pending_ai_request {
        text_laws::lemma_blank_trimmed(r);
    }
}

/// A reply opens the view of it at its first line; a failure is told for nine seconds.
/// Nothing else changes.
pub proof fn law_reply_outcomes(e: EditorState, program: ProgramOutcome, now: u64)
    ensures
        e.resumed(Outcome::Groq { program }, now).1 is Continue,
        program matches ProgramOutcome::NotStarted { error } ==> e.resumed(
            Outcome::Groq { program },
            now,
        ).0 == (EditorState {
            temp_status: Some(
                ("Groq error: "@ + ("curl failed to start: "@ + error@), now + 9_000_000_000),
            ),
            ..e
        }),
        program matches ProgramOutcome::Finished { success, stdout, stderr } ==> {
            let reply = groq::reply_of(
                success,
                program::printed_text(stdout@),
                program::printed_text(stderr@),
            );
            &&& reply matches Ok(t) ==> e.resumed(Outcome::Groq { program }, now).0 == (
            EditorState {
                ai_output: Some(lines::split(t)),
                ai_scroll: 0,
                needs_redraw: true,
                force_full_redraw: true,
                ..e
            })
            &&& reply matches Err(m) ==> e.resumed(Outcome::Groq { program }, now).0 == (
            EditorState {
                temp_status: Some(("Groq error: "@ + m, now + 9_000_000_000)),
                ..e
            })
        },
{
}

// ---------------------------------------------------------------------------
// Messages and the status line
// ---------------------------------------------------------------------------

/// What the status line says: the question whether to leave, the search or the command
/// that is typed, the key of the assistant behind stars, a message as long as it lasts,
/// and else the name of the file, with a star if the document is marked as changed, and
/// the shortcuts.
pub proof fn law_status_line(e: EditorState, now: u64)
    ensures
        e.confirm_exit ==> e.status_line(now) == "Exit without saving? (y = quit, n = cancel)"@,
        !e.confirm_exit && e.in_search ==> e.status_line(now) == "Search: "@ + e.search_input,
        !e.confirm_exit && !e.in_search && e.mode == InputMode::Command ==> e.status_line(now)
            == "Command: "@ + e.command_buffer,
        !e.confirm_exit && !e.in_search && e.mode == InputMode::AwaitGroqKey ==> exists|
            stars: Seq<char>,
        | #[trigger]
            ("Groq API key: "@ + stars) + " | Enter = save | Esc = cancel"@ == e.status_line(now)
                && stars.len() == e.groq_key_buffer.len() && forall|i: int|
                0 <= i < stars.len() ==> #[trigger] stars[i] == '*',
        !e.confirm_exit && !e.in_search && e.mode == InputMode::Insert ==> {
            let help = " | Ctrl+S Save | Ctrl+F Find | Ctrl+Z Undo | Ctrl+X Exit | Esc Command"@;
            &&& e.temp_status matches Some((msg, until)) ==> now < until ==> e.status_line(now)
                == msg
            &&& (e.temp_status matches Some((msg, until)) ==> now >= until) ==> e.status_line(now)
                == (if e.doc.dirty {
                seq!['*'] + e.filename + help
            } else {
                e.filename + help
            })
        },
{
    reveal_strlit("*");
    assert("*"@ =~= seq!['*']);
    let stars = Seq::new(e.groq_key_buffer.len(), |i: int| '*');
    if !e.confirm_exit && !e.in_search && e.mode == InputMode::AwaitGroqKey {
        assert(("Groq API key: "@ + stars) + " | Enter = save | Esc = cancel"@ == e.status_line(
            now,
        ));
    }
    if !e.doc.dirty {
        assert(Seq::<char>::empty() + e.filename =~= e.filename);
    }
}

/// A message is kept with the end of its time, and asking for a redraw asks for nothing
/// else.
pub proof fn law_messages_and_redraws(e: EditorState, msg: Seq<char>, seconds: u64, now: u64)
    ensures
        e.with_status(msg, seconds, now) == (EditorState {
            temp_status: Some((msg, now + seconds * 1_000_000_000)),
            ..e
        }),
        e.redrawn() == (EditorState { needs_redraw: true, ..e }),
        e.fully_redrawn() == (EditorState { needs_redraw: true, force_full_redraw: true, ..e }),
        e.expired(now) <==> (e.temp_status is Some && (e.temp_status->0).1 <= now),
{
}

/// The wait for a key: up to the end of the message if that is less than a quarter of a
/// second away, and else a quarter of a second.
pub proof fn law_wait_time(e: EditorState, now: u64)
    ensures
        e.temp_status matches Some((m, until)) ==> now < until < now + 250_000_000 ==> e.wait_time(
            now,
        ) == until - now,
        (e.temp_status matches Some((m, until)) ==> until <= now || now + 250_000_000 <= until)
            ==> e.wait_time(now) == 250_000_000,
{
}

// ---------------------------------------------------------------------------
// The steps by themselves
// ---------------------------------------------------------------------------

/// What is asked for when a text is to be saved, a shell command run or the assistant
/// asked, by itself.
pub proof fn law_steps_by_themselves(e: EditorState, s: Seq<char>, quit: bool, now: u64)
    ensures
        e.save_step(quit) == (Step::Save { text: lines::joined(e.doc.lines), quit }),
        !text_laws::blank(s) ==> e.shell_asked(s, now) == (e, Step::RunShell { command: s }),
        text_laws::blank(s) ==> e.shell_asked(s, now) == (
            EditorState {
                temp_status: Some(("Usage: :!<shell command>"@, now + 3_000_000_000)),
                ..e
            },
            Step::Continue,
        ),
        e.groq_api_key matches Some(key) ==> !text_laws::blank(s) ==> e.groq_asked(s, now) == (
            e,
            Step::AskGroq { key, request: s },
        ),
        e.groq_api_key is None && !text_laws::blank(s) ==> e.groq_asked(s, now) == (
            EditorState {
                pending_ai_request: Some(s),
                mode: InputMode::AwaitGroqKey,
                groq_key_buffer: Seq::empty(),
                temp_status: Some(("Enter Groq API key"@, now + 3_000_000_000)),
                needs_redraw: true,
                ..e
            },
            Step::Continue,
        ),
{
    text_laws::lemma_blank_trimmed(s);
}

/// An outcome is taken in by what belongs to it.
pub proof fn law_outcomes_taken_in(
    e: EditorState,
    ok: bool,
    quit: bool,
    change: ChmodOutcome,
    program: ProgramOutcome,
    key: String,
    now: u64,
)
    ensures
        e.saved(ok, quit, now) == e.resumed(Outcome::Saved { ok, quit }, now),
        e.made_executable(change, now) == e.resumed(Outcome::Chmod { change }, now).0,
        e.shell_ran(program, now) == e.resumed(Outcome::Shell { program }, now).0,
        e.key_saved(key@, ok, now) == e.resumed(Outcome::GroqKeySaved { key, ok }, now),
        program matches ProgramOutcome::Finished { success, stdout, stderr } ==> e.replied(
            groq::reply_of(
                success,
                program::printed_text(stdout@),
                program::printed_text(stderr@),
            ),
            now,
        ) == e.resumed(Outcome::Groq { program }, now).0,
{
}

/// A reply is shown from its first line on, and an error is told.
pub proof fn law_replies_and_errors(e: EditorState, t: Seq<char>, now: u64)
    ensures
        e.replied(Ok(t), now) == (EditorState {
            ai_output: Some(lines::split(t)),
            ai_scroll: 0,
            needs_redraw: true,
            force_full_redraw: true,
            ..e
        }),
        e.replied(Err(t), now) == (EditorState {
            temp_status: Some(("Groq error: "@ + t, now + 9_000_000_000)),
            ..e
        }),
{
}

} // verus!
