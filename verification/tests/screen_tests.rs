use van::editor::Editor;
use van::screen::{DrawOp, Frame};

fn on(text: &str) -> Editor {
    Editor::open("f".to_string(), Some(text.to_string()), None)
}

fn trace(ops: &Vec<DrawOp>) -> Vec<String> {
    ops.iter()
        .map(|op| match op {
            DrawOp::ClearAll => "clear all".to_string(),
            DrawOp::ClearLine => "clear".to_string(),
            DrawOp::MoveTo { x, y } => format!("{},{}", x, y),
            DrawOp::Print { text } => format!("[{}]", text),
            DrawOp::Reverse => "reverse".to_string(),
            DrawOp::Reset => "reset".to_string(),
        })
        .collect()
}

fn show(ed: &mut Editor, w: u16, h: u16) -> Vec<String> {
    let frame: Frame = ed.render(w, h, 0);
    let out = trace(&frame.ops);
    ed.finish_render(frame);
    out
}

#[test]
fn rows_are_windows_on_the_lines() {
    let mut ed = on("abcdef\n\x1bx\n\u{e9}");
    ed.offset_x = 1;
    ed.offset_y = 1;
    let rows = ed.build_rows(3, 3, 0);
    assert_eq!(rows.len(), 4);
    assert_eq!(&rows[..3], &["x".to_string(), "".to_string(), "".to_string()]);
    assert_eq!(rows[3], ed.current_status(0));
    assert_eq!(ed.visible_plain_text("abcdef", 3), "bcd");
    ed.offset_y = 0;
    assert_eq!(ed.build_rows(3, 1, 0)[0], "bcd");
}

#[test]
fn matches_are_drawn_in_reverse() {
    let mut ed = on("xabyabz");
    ed.search_highlight = "ab".to_string();
    assert_eq!(
        trace(&ed.draw_visible_line(0, 80)),
        vec!["[x]", "reverse", "[ab]", "reset", "[y]", "reverse", "[ab]", "reset", "[z]"]
    );
    // A match that the window cuts is none.
    assert_eq!(trace(&ed.draw_visible_line(0, 2)), vec!["[xa]"]);
    ed.search_highlight = "aba".to_string();
    assert_eq!(trace(&ed.draw_visible_line(0, 80)), vec!["[xabyabz]"]);
    ed.search_highlight = "".to_string();
    assert_eq!(trace(&ed.draw_visible_line(0, 80)), vec!["[xabyabz]"]);
    assert!(ed.draw_visible_line(1, 80).is_empty());
    let mut ed = on("");
    assert_eq!(trace(&ed.draw_visible_line(0, 80)), vec!["[]"]);
    ed.search_highlight = "q".to_string();
    assert!(ed.draw_visible_line(0, 80).is_empty());
}

#[test]
fn first_picture_draws_everything() {
    let mut ed = on("ab\ncd");
    ed.cursor_y = 1;
    ed.cursor_x = 1;
    assert_eq!(
        show(&mut ed, 4, 4),
        vec![
            "0,0", "clear", "[ab]", "0,1", "clear", "[cd]", "0,2", "clear", "0,3", "reverse", "clear",
            "[f | ]", "reset", "1,1",
        ]
    );
    assert!(!ed.needs_redraw());
    assert_eq!(ed.last_size, (4, 4));
    assert_eq!(ed.last_rendered_rows, vec!["ab", "cd", "", "f | "]);
}

#[test]
fn unchanged_rows_are_left_alone() {
    let mut ed = on("ab\ncd");
    show(&mut ed, 4, 4);
    assert_eq!(show(&mut ed, 4, 4), vec!["0,0"]);
    ed.lines[1] = "cX".to_string();
    assert_eq!(show(&mut ed, 4, 4), vec!["0,1", "clear", "[cX]", "0,0"]);
    ed.dirty = true;
    assert_eq!(
        show(&mut ed, 4, 4),
        vec!["0,3", "reverse", "clear", "[*f |]", "reset", "0,0"]
    );
    ed.request_full_redraw();
    assert_eq!(show(&mut ed, 4, 4).len(), 14);
    // Another size draws everything again.
    assert_eq!(show(&mut ed, 5, 4).len(), 14);
}

#[test]
fn the_screen_follows_the_cursor() {
    let mut ed = on("a\nb\nc\nd\ne");
    ed.cursor_y = 4;
    show(&mut ed, 10, 3);
    assert_eq!(ed.offset_y, 3);
    assert_eq!(&ed.last_rendered_rows[..2], &["d".to_string(), "e".to_string()]);
    let ops = show(&mut ed, 10, 3);
    assert_eq!(ops, vec!["0,1"]);
}

#[test]
fn screens_without_room() {
    let mut ed = on("ab");
    assert_eq!(show(&mut ed, 0, 0), vec!["0,0", "reverse", "clear", "[]", "reset"]);
    let mut ed = on("ab");
    ed.cursor_x = 2;
    assert_eq!(show(&mut ed, 2, 1), vec!["0,0", "reverse", "clear", "[f ]", "reset", "1,0"]);
}

#[test]
fn replies_are_drawn_on_a_clear_screen() {
    let mut ed = on("ab");
    ed.ai_output = Some(vec!["one".to_string(), "two more".to_string(), "three".to_string()]);
    ed.ai_scroll = 1;
    ed.last_rendered_rows = vec!["kept".to_string()];
    assert_eq!(
        show(&mut ed, 6, 4),
        vec!["clear all", "0,0", "[two mo]", "0,1", "[three]", "0,3", "reverse", "[[AI VI]", "reset"]
    );
    assert!(!ed.needs_redraw && !ed.force_full_redraw);
    assert_eq!(ed.last_rendered_rows, vec!["kept"]);
    assert_eq!(show(&mut ed, 6, 0), vec!["clear all"]);
    let wide = show(&mut ed, 40, 1);
    assert_eq!(
        wide,
        vec![
            "clear all",
            "0,0",
            "reverse",
            "[[AI VIEW] \u{2191}/\u{2193} scroll | Esc to exit      ]",
            "reset",
        ]
    );
}

#[test]
fn a_second_picture_only_sets_the_cursor() {
    for (w, h) in [(10, 4), (3, 2), (5, 1), (1, 1)] {
        let mut ed = on("one\ntwo\nthree\nfour");
        ed.cursor_y = 3;
        ed.cursor_x = 4;
        show(&mut ed, w, h);
        let (x, y) = (ed.offset_x, ed.offset_y);
        assert_eq!(show(&mut ed, w, h).len(), 1);
        assert_eq!((ed.offset_x, ed.offset_y), (x, y));
    }
    let mut ed = on("one");
    show(&mut ed, 5, 0);
    assert!(show(&mut ed, 5, 0).is_empty());
}
