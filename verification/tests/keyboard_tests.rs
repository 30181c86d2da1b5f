use crossterm::event::KeyModifiers;
use van::command::{executable_mode, shell_message, ChmodOutcome, Effect, Outcome, ProgramOutcome};
use van::editor::Editor;
use van::keyboard::{Key, KeyCode};
use van::state::InputMode;

fn on(name: &str, text: &str) -> Editor {
    Editor::open(name.to_string(), Some(text.to_string()), None)
}

fn plain(code: KeyCode) -> Key {
    Key { code, modifiers: KeyModifiers::NONE.bits() }
}

fn ctrl(c: char) -> Key {
    Key { code: KeyCode::Char(c), modifiers: KeyModifiers::CONTROL.bits() }
}

fn press(ed: &mut Editor, code: KeyCode) -> Effect {
    ed.handle_key(plain(code), 0)
}

fn type_text(ed: &mut Editor, text: &str) {
    for c in text.chars() {
        assert!(matches!(press(ed, KeyCode::Char(c)), Effect::Continue));
    }
}

fn command(ed: &mut Editor, text: &str) -> Effect {
    press(ed, KeyCode::Esc);
    type_text(ed, text);
    press(ed, KeyCode::Enter)
}

fn message(ed: &Editor) -> &str {
    &ed.temp_status.as_ref().unwrap().0
}

#[test]
fn control_is_told_from_the_other_modifiers() {
    for bits in 0..=255u8 {
        let key = Key { code: KeyCode::Other, modifiers: bits };
        assert_eq!(
            key.holds_control(),
            KeyModifiers::from_bits_truncate(bits).contains(KeyModifiers::CONTROL)
        );
        assert_eq!(key.holds_control(), bits & 2 == 2);
    }
    assert_eq!(plain(KeyCode::Char('a')).typed_char(), Some('a'));
    assert_eq!(ctrl('a').typed_char(), None);
    let shifted = Key { code: KeyCode::Char('A'), modifiers: KeyModifiers::SHIFT.bits() };
    assert_eq!(shifted.typed_char(), Some('A'));
    assert_eq!(plain(KeyCode::Enter).typed_char(), None);
}

#[test]
fn typing_text() {
    let mut ed = on("a.rs", "");
    type_text(&mut ed, "f {");
    press(&mut ed, KeyCode::Enter);
    type_text(&mut ed, "x");
    assert_eq!(ed.lines, vec!["f {", "    x"]);
    press(&mut ed, KeyCode::Backspace);
    assert_eq!(ed.lines, vec!["f {", "    "]);
    ed.handle_key(ctrl('a'), 0);
    assert_eq!(ed.lines, vec!["f {", "    "]);
    press(&mut ed, KeyCode::Other);
    assert_eq!(ed.lines, vec!["f {", "    "]);
}

#[test]
fn arrows() {
    let mut ed = on("a", "long line\nab\nlonger line");
    press(&mut ed, KeyCode::Up);
    assert_eq!((ed.cursor_y, ed.cursor_x), (0, 0));
    press(&mut ed, KeyCode::Left);
    assert_eq!((ed.cursor_y, ed.cursor_x), (0, 0));
    ed.cursor_x = 9;
    press(&mut ed, KeyCode::Right);
    assert_eq!((ed.cursor_y, ed.cursor_x), (1, 0));
    press(&mut ed, KeyCode::Left);
    assert_eq!((ed.cursor_y, ed.cursor_x), (0, 9));
    press(&mut ed, KeyCode::Down);
    assert_eq!((ed.cursor_y, ed.cursor_x), (1, 2));
    press(&mut ed, KeyCode::Down);
    assert_eq!((ed.cursor_y, ed.cursor_x), (2, 2));
    press(&mut ed, KeyCode::Down);
    assert_eq!((ed.cursor_y, ed.cursor_x), (2, 2));
    press(&mut ed, KeyCode::Up);
    press(&mut ed, KeyCode::Left);
    assert_eq!((ed.cursor_y, ed.cursor_x), (1, 1));
    ed.cursor_y = 2;
    ed.cursor_x = 11;
    press(&mut ed, KeyCode::Right);
    assert_eq!((ed.cursor_y, ed.cursor_x), (2, 11));
}

#[test]
fn leaving_is_confirmed() {
    let mut ed = on("a", "");
    assert!(matches!(ed.handle_key(ctrl('x'), 0), Effect::Continue));
    assert!(ed.confirm_exit);
    assert!(matches!(press(&mut ed, KeyCode::Char('q')), Effect::Continue));
    assert!(ed.confirm_exit);
    assert!(matches!(press(&mut ed, KeyCode::Char('n')), Effect::Continue));
    assert!(!ed.confirm_exit);
    assert_eq!(message(&ed), "Exit cancelled");
    ed.handle_key(ctrl('x'), 0);
    assert!(matches!(press(&mut ed, KeyCode::Char('Y')), Effect::Quit));
}

#[test]
fn saving_with_the_shortcut() {
    let mut ed = on("f.txt", "a\nb");
    type_text(&mut ed, "x");
    assert!(ed.dirty);
    match ed.handle_key(ctrl('s'), 0) {
        Effect::Save { text, quit } => {
            assert_eq!(text, "xa\nb");
            assert!(!quit);
        }
        _ => panic!(),
    }
    assert!(matches!(ed.resume(Outcome::Saved { ok: false, quit: false }, 0), Effect::Continue));
    assert_eq!(message(&ed), "Save failed: f.txt");
    assert!(ed.dirty);
    assert!(matches!(ed.resume(Outcome::Saved { ok: true, quit: false }, 0), Effect::Continue));
    assert_eq!(message(&ed), "SAVED: f.txt");
    assert!(!ed.dirty);
}

#[test]
fn searching() {
    let mut ed = on("a", "one\ntwo");
    ed.handle_key(ctrl('f'), 0);
    assert!(ed.in_search);
    type_text(&mut ed, "wo!");
    press(&mut ed, KeyCode::Backspace);
    ed.handle_key(ctrl('q'), 0);
    assert_eq!(ed.search_input, "wo");
    press(&mut ed, KeyCode::Enter);
    assert!(!ed.in_search);
    assert_eq!((ed.cursor_y, ed.cursor_x), (1, 1));
    assert_eq!(message(&ed), "Found 'wo'");
    assert_eq!(ed.temp_status.as_ref().unwrap().1, 5_000_000_000);
    ed.handle_key(ctrl('f'), 0);
    assert_eq!(ed.search_input, "wo");
    type_text(&mut ed, "x");
    press(&mut ed, KeyCode::Enter);
    assert_eq!(message(&ed), "'wox' not found");
    assert_eq!((ed.cursor_y, ed.cursor_x), (1, 1));
    assert_eq!(ed.lines, vec!["one", "two"]);
}

#[test]
fn searching_for_nothing() {
    let mut ed = on("a", "one");
    ed.handle_key(ctrl('f'), 0);
    press(&mut ed, KeyCode::Backspace);
    press(&mut ed, KeyCode::Enter);
    assert!(!ed.in_search);
    assert_eq!(ed.temp_status, None);
    ed.handle_key(ctrl('f'), 0);
    type_text(&mut ed, "x");
    press(&mut ed, KeyCode::Esc);
    assert!(!ed.in_search);
    assert_eq!(ed.search_input, "");
    assert_eq!(ed.search_highlight, "");
    assert_eq!(message(&ed), "Find cancelled");
}

#[test]
fn undoing_with_the_shortcut() {
    let mut ed = on("a", "");
    ed.handle_key(ctrl('z'), 0);
    assert_eq!(message(&ed), "Nothing to undo");
    type_text(&mut ed, "x");
    // In command mode too.
    press(&mut ed, KeyCode::Esc);
    ed.handle_key(ctrl('z'), 0);
    assert_eq!(message(&ed), "Undid last edit");
    assert_eq!(ed.lines, vec![""]);
    assert_eq!(ed.mode, InputMode::Command);
}

#[test]
fn undoing_a_join_behind_any_line() {
    let mut ed = on("a", "\u{e9}\nx");
    ed.cursor_y = 1;
    press(&mut ed, KeyCode::Backspace);
    assert_eq!(ed.lines, vec!["\u{e9}x"]);
    assert!(ed.accepts(ctrl('z')));
    ed.handle_key(ctrl('z'), 0);
    assert_eq!(message(&ed), "Undid last edit");
    assert_eq!(ed.lines, vec!["\u{e9}", "x"]);
    assert_eq!((ed.cursor_y, ed.cursor_x), (1, 0));
}

#[test]
fn undoing_past_a_save_marks_the_text_as_changed() {
    let mut ed = on("f.txt", "a");
    type_text(&mut ed, "b");
    ed.resume(Outcome::Saved { ok: true, quit: false }, 0);
    assert!(!ed.dirty);
    assert!(ed.undo());
    assert_eq!(ed.lines, vec!["a"]);
    assert!(ed.dirty);
    assert!(matches!(ed.execute_command(":q", 0), Effect::Continue));
    assert_eq!(message(&ed), "Unsaved changes. Use :q! to quit anyway.");
    // Once that text is saved too, nothing keeps the editor.
    ed.resume(Outcome::Saved { ok: true, quit: false }, 0);
    assert!(matches!(ed.execute_command(":q", 0), Effect::Quit));
}

#[test]
fn undoing_back_to_the_saved_text_takes_the_mark_away() {
    let mut ed = on("f.txt", "a");
    type_text(&mut ed, "b");
    ed.resume(Outcome::Saved { ok: true, quit: false }, 0);
    type_text(&mut ed, "c");
    assert!(ed.dirty);
    assert!(ed.undo());
    assert_eq!(ed.lines, vec!["ba"]);
    assert!(!ed.dirty);
    // A save that failed marks nothing.
    ed.resume(Outcome::Saved { ok: false, quit: false }, 0);
    assert!(ed.undo_stack.iter().all(|u| u.dirty));
    let mut ed = on("f.txt", "a");
    type_text(&mut ed, "b");
    ed.resume(Outcome::Saved { ok: false, quit: false }, 0);
    assert!(ed.undo());
    assert!(!ed.dirty);
}

#[test]
fn the_cursor_stays_within_its_line() {
    let codes = [
        KeyCode::Char('{'),
        KeyCode::Char('\u{e9}'),
        KeyCode::Enter,
        KeyCode::Backspace,
        KeyCode::Up,
        KeyCode::Down,
        KeyCode::Left,
        KeyCode::Right,
    ];
    let mut ed = on("a.rs", "x\n\n  \u{e9}y {\n");
    let mut seed: usize = 1;
    for i in 0..2000 {
        seed = (seed * 75 + 74) % 65537;
        if seed % 9 == 8 {
            ed.handle_key(ctrl('z'), 0);
        } else {
            press(&mut ed, codes[seed % 8]);
        }
        if i % 50 == 0 {
            ed.resume(Outcome::Saved { ok: true, quit: false }, 0);
        }
        assert!(ed.cursor_y < ed.lines.len());
        assert!(ed.cursor_x <= ed.line_len(ed.cursor_y));
    }
}

#[test]
fn escape_toggles_command_mode() {
    let mut ed = on("a", "");
    press(&mut ed, KeyCode::Esc);
    assert_eq!(ed.mode, InputMode::Command);
    assert_eq!(ed.command_buffer, ":");
    assert_eq!(message(&ed), "Command mode");
    press(&mut ed, KeyCode::Backspace);
    assert_eq!(ed.command_buffer, ":");
    type_text(&mut ed, "\u{e9}");
    press(&mut ed, KeyCode::Backspace);
    assert_eq!(ed.command_buffer, ":");
    press(&mut ed, KeyCode::Esc);
    assert_eq!(ed.mode, InputMode::Insert);
    assert_eq!(ed.command_buffer, "");
    assert_eq!(message(&ed), "Command cancelled");
    assert_eq!(ed.lines, vec![""]);
}

#[test]
fn quit_commands() {
    let mut ed = on("a", "");
    assert!(matches!(command(&mut ed, "q"), Effect::Quit));
    type_text(&mut ed, "x");
    assert!(matches!(command(&mut ed, " q "), Effect::Continue));
    assert_eq!(message(&ed), "Unsaved changes. Use :q! to quit anyway.");
    assert!(matches!(command(&mut ed, "q!"), Effect::Quit));
    for word in ["wq", "x", "wq!"] {
        match command(&mut ed, word) {
            Effect::Save { text, quit } => {
                assert_eq!(text, "x");
                assert!(quit);
            }
            _ => panic!(),
        }
    }
    assert!(matches!(ed.resume(Outcome::Saved { ok: false, quit: true }, 0), Effect::Continue));
    assert!(matches!(ed.resume(Outcome::Saved { ok: true, quit: true }, 0), Effect::Quit));
    assert!(matches!(command(&mut ed, "w"), Effect::Save { quit: false, .. }));
}

#[test]
fn line_commands() {
    let mut ed = on("a", "1\n2\n3");
    ed.cursor_x = 1;
    assert!(matches!(command(&mut ed, "3"), Effect::Continue));
    assert_eq!((ed.cursor_y, ed.cursor_x), (2, 0));
    assert_eq!(message(&ed), "Jumped to line 3");
    command(&mut ed, "+1");
    assert_eq!(ed.cursor_y, 0);
    command(&mut ed, "4");
    assert_eq!(message(&ed), "Line 4 is out of bounds (max: 3)");
    command(&mut ed, "0");
    assert_eq!(message(&ed), "Line 0 is out of bounds (max: 3)");
    command(&mut ed, "99999999999999999999");
    assert_eq!(message(&ed), "Unknown command: :99999999999999999999");
    assert_eq!(ed.cursor_y, 0);
}

#[test]
fn empty_and_unknown_commands() {
    let mut ed = on("a", "");
    command(&mut ed, "  ");
    assert_eq!(message(&ed), "Empty command");
    command(&mut ed, "nope");
    assert_eq!(message(&ed), "Unknown command: :nope");
    // Without a colon, and with white space around it.
    assert!(matches!(ed.execute_command(" q ", 0), Effect::Quit));
    assert!(matches!(ed.execute_command(" : q", 0), Effect::Quit));
    assert!(matches!(ed.execute_command("::q", 0), Effect::Continue));
    assert_eq!(message(&ed), "Unknown command: ::q");
}

#[test]
fn making_a_script_executable() {
    let mut ed = on("a.txt", "");
    assert!(matches!(command(&mut ed, "chmod"), Effect::Continue));
    assert_eq!(message(&ed), "Error: :chmod only works for .sh files");
    let mut ed = on("a.sh", "");
    assert!(matches!(command(&mut ed, "chmod"), Effect::MakeExecutable));
    let told = [
        (ChmodOutcome::Applied, "Permission worked: +x applied"),
        (ChmodOutcome::WriteFailed, "Permission failed: Failed to write permissions"),
        (ChmodOutcome::NoFile, "Permission failed: Save the file first!"),
        (ChmodOutcome::Unsupported, "Permission failed: chmod not supported on this OS"),
    ];
    for (change, text) in told {
        assert!(matches!(ed.resume(Outcome::Chmod { change }, 0), Effect::Continue));
        assert_eq!(message(&ed), text);
    }
    assert_eq!(executable_mode(0o644), 0o755);
    assert_eq!(executable_mode(0o100640), 0o100751);
}

#[test]
fn shell_commands() {
    let mut ed = on("a", "");
    assert!(matches!(command(&mut ed, "!  "), Effect::Continue));
    assert_eq!(message(&ed), "Usage: :!<shell command>");
    match command(&mut ed, "! ls -l ") {
        Effect::RunShell { command } => assert_eq!(command, "ls -l"),
        _ => panic!(),
    }
    let program = ProgramOutcome::Finished {
        success: true,
        stdout: b" out \n".to_vec(),
        stderr: b"e\xffr\n".to_vec(),
    };
    assert!(matches!(ed.resume(Outcome::Shell { program }, 0), Effect::Continue));
    assert_eq!(message(&ed), "out | e\u{fffd}r");
    let program = ProgramOutcome::NotStarted { error: "no shell".to_string() };
    ed.resume(Outcome::Shell { program }, 0);
    assert_eq!(message(&ed), "Shell command failed: no shell");
    assert_eq!(shell_message("", " \n"), "[shell command produced no output]");
    assert_eq!(shell_message("a\n", ""), "a");
    assert_eq!(shell_message("", "b\n"), "b");
}

#[test]
fn asking_without_a_key() {
    let mut ed = on("a", "text");
    assert!(matches!(command(&mut ed, "ai  why? "), Effect::Continue));
    assert_eq!(ed.mode, InputMode::AwaitGroqKey);
    assert_eq!(ed.pending_ai_request, Some("why?".to_string()));
    assert_eq!(message(&ed), "Enter Groq API key");
    assert!(matches!(press(&mut ed, KeyCode::Enter), Effect::Continue));
    assert_eq!(message(&ed), "Groq API key cannot be empty");
    type_text(&mut ed, " kex");
    press(&mut ed, KeyCode::Backspace);
    type_text(&mut ed, "y ");
    match press(&mut ed, KeyCode::Enter) {
        Effect::SaveGroqKey { key } => assert_eq!(key, "key"),
        _ => panic!(),
    }
    let kept = Outcome::GroqKeySaved { key: "key".to_string(), ok: false };
    assert!(matches!(ed.resume(kept, 0), Effect::Continue));
    assert_eq!(message(&ed), "Failed to save Groq API key");
    assert_eq!(ed.mode, InputMode::AwaitGroqKey);
    let kept = Outcome::GroqKeySaved { key: "key".to_string(), ok: true };
    match ed.resume(kept, 0) {
        Effect::AskGroq { key, request } => {
            assert_eq!(key, "key");
            assert_eq!(request, "why?");
        }
        _ => panic!(),
    }
    assert_eq!(ed.mode, InputMode::Insert);
    assert_eq!(ed.pending_ai_request, None);
    assert_eq!(ed.groq_api_key, Some("key".to_string()));
    assert_eq!(ed.lines, vec!["text"]);
}

#[test]
fn the_key_entry_can_be_left() {
    let mut ed = on("a", "");
    command(&mut ed, "ai");
    assert_eq!(
        ed.pending_ai_request,
        Some("Review this file and suggest fixes.".to_string())
    );
    type_text(&mut ed, "k");
    press(&mut ed, KeyCode::Esc);
    assert_eq!(ed.mode, InputMode::Insert);
    assert_eq!(ed.groq_key_buffer, "");
    assert_eq!(ed.pending_ai_request, None);
    assert_eq!(message(&ed), "Groq key entry cancelled");
    let kept = Outcome::GroqKeySaved { key: "k".to_string(), ok: true };
    assert!(matches!(ed.resume(kept, 0), Effect::Continue));
    assert_eq!(message(&ed), "Groq API key saved");
}

#[test]
fn replies_of_the_assistant() {
    let mut ed = Editor::open("a".to_string(), None, Some("key".to_string()));
    assert!(matches!(command(&mut ed, "ai hello"), Effect::AskGroq { .. }));
    let program = ProgramOutcome::Finished {
        success: true,
        stdout: b"{\"content\":\"one\\ntwo\"}".to_vec(),
        stderr: Vec::new(),
    };
    assert!(matches!(ed.resume(Outcome::Groq { program }, 0), Effect::Continue));
    assert_eq!(ed.ai_output, Some(vec!["one".to_string(), "two".to_string()]));
    assert!(matches!(press(&mut ed, KeyCode::Char('x')), Effect::Continue));
    press(&mut ed, KeyCode::Up);
    assert_eq!(ed.ai_scroll, 0);
    press(&mut ed, KeyCode::Down);
    press(&mut ed, KeyCode::Down);
    assert_eq!(ed.ai_scroll, 1);
    press(&mut ed, KeyCode::Up);
    assert_eq!(ed.ai_scroll, 0);
    press(&mut ed, KeyCode::Esc);
    assert_eq!(ed.ai_output, None);
    assert_eq!(ed.lines, vec![""]);
    let program = ProgramOutcome::NotStarted { error: "no curl".to_string() };
    ed.resume(Outcome::Groq { program }, 0);
    assert_eq!(message(&ed), "Groq error: curl failed to start: no curl");
    assert_eq!(ed.temp_status.as_ref().unwrap().1, 9_000_000_000);
    let program = ProgramOutcome::Finished { success: false, stdout: Vec::new(), stderr: Vec::new() };
    ed.resume(Outcome::Groq { program }, 0);
    assert_eq!(message(&ed), "Groq error: Groq request failed");
}

#[test]
fn request_for_the_document() {
    let ed = on("a", "x\n\"y\"");
    let args = ed.call_groq_api(None, "k", "fix");
    assert_eq!(args.len(), 10);
    assert_eq!(args[5], "Authorization: Bearer k");
    assert!(args[9].starts_with("{\"model\":\"llama-3.3-70b-versatile\","));
    assert!(args[9].contains("Current file:\\n\\nx\\n\\\"y\\\"\\n\\nUser request:\\nfix"));
    let args = ed.call_groq_api(Some("other".to_string()), "k", "fix");
    assert!(args[9].starts_with("{\"model\":\"other\","));
}

#[test]
fn the_undo_key_takes_one_key_back() {
    for code in [KeyCode::Char('\u{e9}'), KeyCode::Backspace, KeyCode::Enter] {
        for x in 0..=2 {
            let mut ed = on("a.rs", "  {\nab");
            ed.cursor_y = 1;
            ed.cursor_x = x;
            press(&mut ed, code);
            assert!(ed.lines != ["  {", "ab"] && ed.dirty);
            assert!(ed.accepts(ctrl('z')));
            assert!(matches!(ed.handle_key(ctrl('z'), 0), Effect::Continue));
            assert_eq!(ed.lines, ["  {", "ab"]);
            assert_eq!((ed.cursor_y, ed.cursor_x, ed.dirty), (1, x, false));
            assert!(ed.undo_stack.is_empty());
        }
    }
}

#[test]
fn one_outcome_asks_for_more_at_most_once() {
    let mut ed = on("a", "");
    assert!(matches!(command(&mut ed, "ai hi"), Effect::Continue));
    let saved = Outcome::GroqKeySaved { key: "k".to_string(), ok: true };
    assert!(matches!(ed.resume(saved, 0), Effect::AskGroq { .. }));
    let failed = ProgramOutcome::NotStarted { error: "no curl".to_string() };
    assert!(matches!(ed.resume(Outcome::Groq { program: failed }, 0), Effect::Continue));
    assert_eq!(message(&ed), "Groq error: curl failed to start: no curl");
}

#[test]
fn keys_at_the_largest_column() {
    let mut ed = on("a", "x");
    ed.cursor_x = usize::MAX;
    assert!(!ed.accepts(plain(KeyCode::Char('c'))));
    assert!(ed.accepts(plain(KeyCode::Esc)));
    assert!(ed.accepts(plain(KeyCode::Enter)));
    assert!(ed.accepts(ctrl('c')));
    press(&mut ed, KeyCode::Esc);
    assert!(ed.accepts(plain(KeyCode::Char('c'))));
}

#[test]
fn only_the_shortcut_asks_for_a_redraw_after_saving() {
    let mut ed = on("a", "x");
    ed.needs_redraw = false;
    assert!(matches!(ed.handle_key(ctrl('s'), 0), Effect::Save { quit: false, .. }));
    ed.resume(Outcome::Saved { ok: true, quit: false }, 0);
    assert!(ed.needs_redraw);
    ed.needs_redraw = false;
    assert!(matches!(ed.execute_command(":w", 0), Effect::Save { quit: false, .. }));
    ed.resume(Outcome::Saved { ok: true, quit: false }, 0);
    assert!(!ed.needs_redraw);
    assert_eq!(message(&ed), "SAVED: a");
}
