//! What the values of the program stand for: each field of a model is the field of the
//! same name, with its text.

use crate::command::{Effect, Step};
use crate::editor::{Editor, UndoAction, UndoEntry};
use crate::groq;
use crate::keyboard::{Key, KeyCode};
use crate::lines;
use crate::screen;
use crate::screen::{Draw, DrawOp};
use crate::state;
use crate::state::{Change, InputMode};
use crate::text;
use vstd::prelude::*;

verus! {

/// A list of strings stands for the list of their texts.
pub proof fn law_contents(v: Seq<String>)
    ensures
        lines::contents(v).len() == v.len(),
        forall|i: int| 0 <= i < v.len() ==> #[trigger] lines::contents(v)[i] == v[i]@,
{
}

/// An optional string stands for its text, if it is there.
pub proof fn law_text_of(s: String)
    ensures
        text::text_of(Some(s)) == Some(s@),
        text::text_of(None) == None::<Seq<char>>,
{
}

/// A request that came to a string stands for its text, as a reply or as an error.
pub proof fn law_outcome_text(s: String)
    ensures
        groq::outcome_text(Ok(s)) == Ok::<Seq<char>, Seq<char>>(s@),
        groq::outcome_text(Err(s)) == Err::<Seq<char>, Seq<char>>(s@),
{
}

/// An editor stands for a state with the same text, places, mark, dialogs, messages and
/// memory of the screen.
pub proof fn law_editor_view(ed: Editor)
    ensures
        ed@.doc.language == ed.language,
        ed@.doc.lines.len() == ed.lines@.len(),
        forall|i: int| 0 <= i < ed.lines@.len() ==> #[trigger] ed@.doc.lines[i] == ed.lines@[i]@,
        ed@.doc.cursor_x == ed.cursor_x,
        ed@.doc.cursor_y == ed.cursor_y,
        ed@.doc.offset_x == ed.offset_x,
        ed@.doc.offset_y == ed.offset_y,
        ed@.doc.dirty == ed.dirty,
        ed@.doc.history.len() == ed.undo_stack@.len(),
        forall|i: int|
            0 <= i < ed.undo_stack@.len() ==> #[trigger] ed@.doc.history[i] == ed.undo_stack@[i]@,
        ed@.filename == ed.filename@,
        ed@.search_input == ed.search_input@,
        ed@.search_highlight == ed.search_highlight@,
        ed@.in_search == ed.in_search,
        ed@.confirm_exit == ed.confirm_exit,
        ed@.mode == ed.mode,
        ed@.command_buffer == ed.command_buffer@,
        ed.groq_api_key is None ==> ed@.groq_api_key is None,
        ed.groq_api_key matches Some(s) ==> ed@.groq_api_key == Some(s@),
        ed@.groq_key_buffer == ed.groq_key_buffer@,
        ed.pending_ai_request is None ==> ed@.pending_ai_request is None,
        ed.pending_ai_request matches Some(s) ==> ed@.pending_ai_request == Some(s@),
        ed.temp_status is None ==> ed@.temp_status is None,
        ed.temp_status matches Some((msg, until)) ==> ed@.temp_status == Some((msg@, until as int)),
        ed@.needs_redraw == ed.needs_redraw,
        ed@.force_full_redraw == ed.force_full_redraw,
        ed@.last_rendered_rows.len() == ed.last_rendered_rows@.len(),
        forall|i: int|
            0 <= i < ed.last_rendered_rows@.len() ==> #[trigger] ed@.last_rendered_rows[i]
                == ed.last_rendered_rows@[i]@,
        ed@.last_size == ed.last_size,
        ed.ai_output is None ==> ed@.ai_output is None,
        ed.ai_output matches Some(v) ==> ed@.ai_output is Some && ed@.ai_output->0.len() == v@.len(),
        ed.ai_output matches Some(v) ==> forall|i: int|
            0 <= i < v@.len() ==> #[trigger] ed@.ai_output->0[i] == v@[i]@,
        ed@.ai_scroll == ed.ai_scroll,
{
}

/// An entry of the history stands for the same change and the same place.
pub proof fn law_undo_view(u: UndoEntry, y: usize, x: usize, ch: char, s: String)
    ensures
        u@.change == u.action@,
        u@.cursor_x == u.cursor_x,
        u@.cursor_y == u.cursor_y,
        u@.offset_x == u.offset_x,
        u@.offset_y == u.offset_y,
        u@.dirty == u.dirty,
        (UndoAction::InsertChar { y, x, ch })@ == (Change::InsertChar {
            y: y as int,
            x: x as int,
            ch,
        }),
        (UndoAction::DeleteChar { y, x, ch })@ == (Change::DeleteChar {
            y: y as int,
            x: x as int,
            ch,
        }),
        (UndoAction::InsertNewline { y, x, right: s })@ == (Change::InsertNewline {
            y: y as int,
            x: x as int,
            right: s@,
        }),
        (UndoAction::JoinLines { y, x, removed: s })@ == (Change::JoinLines {
            y: y as int,
            x: x as int,
            removed: s@,
        }),
{
}

/// What the editor asks for stands for the same, with its texts.
pub proof fn law_effect_view(s: String, t: String, quit: bool)
    ensures
        Effect::Continue@ == Step::Continue,
        Effect::Quit@ == Step::Quit,
        Effect::MakeExecutable@ == Step::MakeExecutable,
        (Effect::Save { text: s, quit })@ == (Step::Save { text: s@, quit }),
        (Effect::RunShell { command: s })@ == (Step::RunShell { command: s@ }),
        (Effect::SaveGroqKey { key: s })@ == (Step::SaveGroqKey { key: s@ }),
        (Effect::AskGroq { key: s, request: t })@ == (Step::AskGroq { key: s@, request: t@ }),
{
}

/// An instruction to the terminal stands for the same, with its text, and a list of them
/// for the list in the same order.
pub proof fn law_draw_view(ops: Seq<DrawOp>, s: String, x: u16, y: u16)
    ensures
        DrawOp::ClearAll@ == Draw::ClearAll,
        DrawOp::ClearLine@ == Draw::ClearLine,
        DrawOp::Reverse@ == Draw::Reverse,
        DrawOp::Reset@ == Draw::Reset,
        (DrawOp::MoveTo { x, y })@ == (Draw::MoveTo { x, y }),
        (DrawOp::Print { text: s })@ == (Draw::Print { text: s@ }),
        screen::draws(ops).len() == ops.len(),
        forall|i: int| 0 <= i < ops.len() ==> #[trigger] screen::draws(ops)[i] == ops[i]@,
{
}

/// The rows of a picture stand for their texts, if it has any.
pub proof fn law_rows_view(v: Vec<String>)
    ensures
        screen::rows_of(Some(v)) is Some,
        screen::rows_of(Some(v))->0.len() == v@.len(),
        forall|i: int|
            0 <= i < v@.len() ==> #[trigger] screen::rows_of(Some(v))->0[i] == v@[i]@,
        screen::rows_of(None) is None,
{
}

/// The control key is the second bit of the modifiers, and a character is typed exactly
/// without it.
pub proof fn law_typed(key: Key, c: char)
    ensures
        key.control() <==> key.modifiers & 2u8 == 2u8,
        key.typed() == Some(c) <==> key.code == KeyCode::Char(c) && key.modifiers & 2u8 != 2u8,
{
}

/// Every key can be taken, at every place, but for two that no machine has room for: a
/// character at the largest column, and a line break in a line to which no indentation
/// can be added.
pub proof fn law_keys_taken(ed: Editor, key: Key)
    ensures
        ed.can_take(key) <==> !({
            &&& ed.ai_output is None
            &&& !ed.confirm_exit
            &&& !ed.in_search
            &&& ed.mode == InputMode::Insert
            &&& ({
                ||| key.code is Char && key.modifiers & 2u8 != 2u8 && ed.cursor_x == usize::MAX
                ||| key.code == KeyCode::Enter && ed@.doc.lines[ed.cursor_y as int].len() + 4
                    > usize::MAX
            })
        }),
{
}

/// What is asked of the clock: that the longest message can still end.
pub proof fn law_clock(now: u64)
    ensures
        state::clock_ok(now) <==> now <= u64::MAX - 9_000_000_000,
{
}

/// What makes an editor well formed: a cursor on one of its lines, a reply in view from
/// one of its lines on, and a history that fits.
pub proof fn law_well_formed(ed: Editor)
    ensures
        ed.wf() <==> {
            &&& ed.cursor_y < ed.lines@.len()
            &&& ed.ai_output matches Some(v) ==> ed.ai_scroll == 0 || ed.ai_scroll < v@.len()
            &&& state::history_fits(ed.lines@.len() as int, ed@.doc.history)
        },
        ed.undo_stack@.len() == 0 ==> state::history_fits(
            ed.lines@.len() as int,
            ed@.doc.history,
        ),
{
}

} // verus!
