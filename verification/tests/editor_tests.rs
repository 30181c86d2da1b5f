use van::editor::{Editor, UndoAction};
use van::language::Language;
use van::state::InputMode;

fn on(name: &str, text: &str) -> Editor {
    Editor::open(name.to_string(), Some(text.to_string()), None)
}

fn place(ed: &mut Editor, y: usize, x: usize) {
    ed.cursor_y = y;
    ed.cursor_x = x;
}

#[test]
fn opening() {
    let ed = on("a.rs", "one\ntwo\n");
    assert_eq!(ed.lines, vec!["one", "two"]);
    assert_eq!(ed.language, Language::Rust);
    assert_eq!((ed.cursor_y, ed.cursor_x), (0, 0));
    assert!(!ed.dirty);
    assert!(ed.needs_redraw());
    assert_eq!(ed.mode, InputMode::Insert);
    assert_eq!(on("a", "").lines, vec![""]);
    let ed = Editor::open("b".to_string(), None, Some(" key \n".to_string()));
    assert_eq!(ed.lines, vec![""]);
    assert_eq!(ed.groq_api_key, Some("key".to_string()));
}

#[test]
fn saved_lines_reopen() {
    for lines in [vec!["a", "b"], vec![""], vec!["", "", "x"], vec!["x\r"], vec!["a\rb", "c"]] {
        let mut ed = on("a", "");
        ed.lines = lines.iter().map(|l| l.to_string()).collect();
        let again = on("a", &ed.file_text());
        assert_eq!(again.lines, lines);
    }
    // An empty last line is not kept.
    let mut ed = on("a", "");
    ed.lines = vec!["a".to_string(), "".to_string()];
    assert_eq!(on("a", &ed.file_text()).lines, vec!["a"]);
}

#[test]
fn typing_and_undoing() {
    let mut ed = on("a", "h\u{e9}llo");
    place(&mut ed, 0, 2);
    ed.offset_x = 1;
    ed.insert_char('\u{20ac}');
    assert_eq!(ed.lines, vec!["h\u{e9}\u{20ac}llo"]);
    assert_eq!(ed.cursor_x, 3);
    assert!(ed.dirty);
    assert!(ed.undo());
    assert_eq!(ed.lines, vec!["h\u{e9}llo"]);
    assert_eq!((ed.cursor_x, ed.offset_x), (2, 1));
    assert!(!ed.dirty);
    assert!(!ed.undo());
}

#[test]
fn typing_beyond_the_end_appends() {
    let mut ed = on("a", "ab");
    place(&mut ed, 0, 9);
    ed.insert_char('c');
    assert_eq!(ed.lines, vec!["abc"]);
    assert_eq!(ed.cursor_x, 10);
    // The place that was recorded lies beyond the line, so nothing is taken away.
    assert!(ed.undo());
    assert_eq!(ed.lines, vec!["abc"]);
    assert_eq!(ed.cursor_x, 9);
}

#[test]
fn backspacing_and_undoing() {
    let mut ed = on("a", "a\u{e9}b");
    place(&mut ed, 0, 2);
    ed.backspace();
    assert_eq!(ed.lines, vec!["ab"]);
    assert_eq!(ed.cursor_x, 1);
    assert!(ed.undo());
    assert_eq!(ed.lines, vec!["a\u{e9}b"]);
    assert_eq!(ed.cursor_x, 2);
}

#[test]
fn backspace_with_nothing_to_take() {
    let mut ed = on("a", "ab");
    ed.backspace();
    assert_eq!(ed.lines, vec!["ab"]);
    assert!(!ed.dirty);
    place(&mut ed, 0, 4);
    ed.backspace();
    assert_eq!(ed.lines, vec!["ab"]);
    assert_eq!(ed.cursor_x, 4);
    assert!(ed.undo_stack.is_empty());
}

#[test]
fn joining_lines_and_undoing() {
    let mut ed = on("a", "one\ntw\u{f6}\nthree");
    place(&mut ed, 1, 0);
    ed.backspace();
    assert_eq!(ed.lines, vec!["onetw\u{f6}", "three"]);
    assert_eq!((ed.cursor_y, ed.cursor_x), (0, 3));
    assert!(ed.undo());
    assert_eq!(ed.lines, vec!["one", "tw\u{f6}", "three"]);
    assert_eq!((ed.cursor_y, ed.cursor_x), (1, 0));
}

#[test]
fn undoing_a_join_counts_characters() {
    for (above, below) in [("\u{e9}", "b"), ("\u{e9}b", "x"), ("\u{20ac}\u{1f600}", ""), ("", "\u{e9}")] {
        let mut ed = on("a", "");
        ed.lines = vec![above.to_string(), below.to_string()];
        place(&mut ed, 1, 0);
        ed.backspace();
        assert_eq!(ed.lines, vec![above.to_string() + below]);
        assert!(ed.undo());
        assert_eq!(ed.lines, vec![above, below]);
        assert_eq!((ed.cursor_y, ed.cursor_x, ed.dirty), (1, 0, false));
    }
}

#[test]
fn backspace_takes_a_typed_character_away() {
    for c in ['x', '\u{e9}', '\u{1f600}'] {
        for x in 0..=3 {
            let mut ed = on("a", "a\u{e9}b");
            place(&mut ed, 0, x);
            ed.insert_char(c);
            ed.backspace();
            assert_eq!(ed.lines, vec!["a\u{e9}b"]);
            assert_eq!((ed.cursor_y, ed.cursor_x, ed.dirty), (0, x, true));
            assert_eq!(ed.undo_stack.len(), 2);
        }
    }
}

#[test]
fn breaking_lines_and_undoing() {
    let mut ed = on("a.rs", "    fn f() { x");
    place(&mut ed, 0, 12);
    ed.insert_newline();
    assert_eq!(ed.lines, vec!["    fn f() {", "         x"]);
    assert_eq!((ed.cursor_y, ed.cursor_x), (1, 8));
    assert!(ed.undo());
    assert_eq!(ed.lines, vec!["    fn f() { x"]);
    assert_eq!((ed.cursor_y, ed.cursor_x), (0, 12));
}

#[test]
fn many_edits_undone() {
    let mut ed = on("a.py", "if x:\nend");
    place(&mut ed, 0, 5);
    ed.insert_newline();
    ed.insert_char('y');
    ed.insert_char('z');
    ed.backspace();
    ed.insert_newline();
    place(&mut ed, 3, 0);
    ed.backspace();
    let n = ed.undo_stack.len();
    assert_eq!(n, 6);
    for _ in 0..n {
        assert!(ed.undo());
    }
    assert_eq!(ed.lines, vec!["if x:", "end"]);
    assert_eq!((ed.cursor_y, ed.cursor_x), (0, 5));
    assert!(!ed.dirty);
}

#[test]
fn indentation() {
    let py = on("a.py", "");
    assert_eq!(py.compute_indent("  if a:  ", ""), 6);
    assert_eq!(py.compute_indent("    x", " else: y"), 0);
    assert_eq!(py.compute_indent("  x", "elif b"), 0);
    assert_eq!(py.compute_indent("  if a:", "except"), 2);
    assert_eq!(py.compute_indent("  x", "elif"), 2);
    assert_eq!(py.compute_indent("  x {", ""), 2);
    let c = on("a.h", "");
    assert_eq!(c.compute_indent("  if (a) {", ""), 6);
    assert_eq!(c.compute_indent("    x;", "  }"), 0);
    assert_eq!(c.compute_indent("  {", "}"), 2);
    assert_eq!(c.compute_indent(" x", "}"), 0);
    let sh = on("a.sh", "");
    assert_eq!(sh.compute_indent("  if a {", "}"), 2);
    assert_eq!(Editor::leading_indent("   \tx"), 3);
    assert_eq!(Editor::leading_indent("  "), 2);
    assert_eq!(Editor::leading_indent(""), 0);
}

#[test]
fn line_lengths_count_characters() {
    let ed = on("a", "\u{e9}\u{e9}\n");
    assert_eq!(ed.line_len(0), 2);
}

#[test]
fn finding_the_first_match() {
    let ed = on("a", "x\u{e9}ab\nab\n");
    assert_eq!(ed.find_first("ab"), Some((0, 2)));
    assert_eq!(ed.find_first("b"), Some((0, 3)));
    assert_eq!(ed.find_first("zz"), None);
    assert_eq!(ed.find_first(""), Some((0, 0)));
}

#[test]
fn scrolling_keeps_the_cursor_on_screen() {
    let mut ed = on("a", "");
    ed.lines = (0..100).map(|i| format!("line {}", i)).collect();
    place(&mut ed, 50, 30);
    ed.update_scroll(20, 11);
    assert_eq!((ed.offset_y, ed.offset_x), (41, 11));
    ed.update_scroll(20, 11);
    assert_eq!((ed.offset_y, ed.offset_x), (41, 11));
    place(&mut ed, 40, 5);
    ed.update_scroll(20, 11);
    assert_eq!((ed.offset_y, ed.offset_x), (40, 5));
    place(&mut ed, 45, 10);
    ed.update_scroll(20, 11);
    assert_eq!((ed.offset_y, ed.offset_x), (40, 5));
    ed.update_scroll(0, 0);
    assert_eq!((ed.offset_y, ed.offset_x), (45, 10));
}

#[test]
fn messages_expire() {
    let second = 1_000_000_000u64;
    let mut ed = on("a", "");
    assert_eq!(ed.poll_timeout(7), 250_000_000);
    assert!(!ed.tick(7));
    ed.set_temp_status("hello".to_string(), 3, 10 * second);
    assert_eq!(ed.current_status(12 * second), "hello");
    assert_eq!(ed.poll_timeout(12 * second), 250_000_000);
    assert_eq!(ed.poll_timeout(13 * second - 5), 5);
    assert_eq!(ed.poll_timeout(13 * second), 250_000_000);
    assert!(!ed.tick(13 * second - 1));
    assert!(ed.tick(13 * second));
    assert_eq!(ed.temp_status, None);
}

#[test]
fn status_lines() {
    let mut ed = on("f.txt", "");
    let keys = "f.txt | Ctrl+S Save | Ctrl+F Find | Ctrl+Z Undo | Ctrl+X Exit | Esc Command";
    assert_eq!(ed.current_status(0), keys);
    ed.dirty = true;
    assert_eq!(ed.current_status(0), "*".to_string() + keys);
    ed.mode = InputMode::AwaitGroqKey;
    ed.groq_key_buffer = "a\u{e9}c".to_string();
    assert_eq!(ed.current_status(0), "Groq API key: *** | Enter = save | Esc = cancel");
    ed.mode = InputMode::Command;
    ed.command_buffer = ":w".to_string();
    assert_eq!(ed.current_status(0), "Command: :w");
    ed.in_search = true;
    ed.search_input = "q".to_string();
    assert_eq!(ed.current_status(0), "Search: q");
    ed.confirm_exit = true;
    assert_eq!(ed.current_status(0), "Exit without saving? (y = quit, n = cancel)");
}

#[test]
fn redraw_requests() {
    let mut ed = on("a", "");
    ed.needs_redraw = false;
    ed.force_full_redraw = false;
    ed.request_redraw();
    assert!(ed.needs_redraw && !ed.force_full_redraw);
    ed.request_full_redraw();
    assert!(ed.needs_redraw && ed.force_full_redraw);
}

#[test]
fn history_entries_keep_the_place() {
    let mut ed = on("a", "abc");
    place(&mut ed, 0, 2);
    ed.offset_y = 0;
    ed.push_undo(UndoAction::DeleteChar { y: 0, x: 2, ch: 'z' });
    assert_eq!(ed.undo_stack.len(), 1);
    assert_eq!(ed.undo_stack[0].cursor_x, 2);
    assert!(ed.undo());
    assert_eq!(ed.lines, vec!["abzc"]);
}

#[test]
fn breaking_a_line_keeps_its_text() {
    let line = "  if x: else: \u{e9}";
    for x in 0..=line.chars().count() {
        let mut ed = on("a.py", line);
        place(&mut ed, 0, x);
        ed.insert_newline();
        let rest: String = ed.lines[1].chars().skip(ed.cursor_x).collect();
        assert_eq!(ed.lines[0].clone() + &rest, line);
        assert!(ed.lines[1].chars().take(ed.cursor_x).all(|c| c == ' '));
    }
}
