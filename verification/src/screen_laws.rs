//! What holds of the screen: a row shows its text, whether it is drawn or left alone.

use crate::display;
use crate::laws;
use crate::screen;
use crate::screen::Draw;
use crate::state::EditorState;
use crate::text;
use vstd::prelude::*;

verus! {

/// The text that an instruction prints.
pub open spec fn printed_by(op: Draw) -> Seq<char> {
    match op {
        Draw::Print { text } => text,
        _ => Seq::empty(),
    }
}

/// The text that instructions print, one behind the other.
pub open spec fn printed(ops: Seq<Draw>) -> Seq<char>
    decreases ops.len(),
{
    if ops.len() == 0 {
        Seq::empty()
    } else {
        printed_by(ops[0]) + printed(ops.drop_first())
    }
}

pub proof fn lemma_printed_concat(a: Seq<Draw>, b: Seq<Draw>)
    ensures
        printed(a + b) == printed(a) + printed(b),
    decreases a.len(),
{
    if a.len() == 0 {
        assert(a + b =~= b);
        assert(printed(a) + printed(b) =~= printed(b));
    } else {
        assert((a + b).drop_first() =~= a.drop_first() + b);
        lemma_printed_concat(a.drop_first(), b);
        assert(printed(a + b) =~= printed(a) + printed(b));
    }
}

pub proof fn lemma_printed_one(op: Draw)
    ensures
        printed(seq![op]) == printed_by(op),
{
    assert(seq![op].drop_first() =~= Seq::<Draw>::empty());
    assert(printed_by(op) + Seq::<char>::empty() =~= printed_by(op));
    reveal_with_fuel(printed, 2);
}

proof fn lemma_printed_hit(query: Seq<char>)
    ensures
        printed(seq![Draw::Reverse, Draw::Print { text: query }, Draw::Reset]) == query,
{
    let ops = seq![Draw::Reverse, Draw::Print { text: query }, Draw::Reset];
    assert(ops =~= seq![Draw::Reverse] + (seq![Draw::Print { text: query }] + seq![Draw::Reset]));
    lemma_printed_concat(seq![Draw::Reverse], seq![Draw::Print { text: query }] + seq![Draw::Reset]);
    lemma_printed_concat(seq![Draw::Print { text: query }], seq![Draw::Reset]);
    lemma_printed_one(Draw::Reverse);
    lemma_printed_one(Draw::Print { text: query });
    lemma_printed_one(Draw::Reset);
    assert(printed(ops) =~= query);
}

/// Setting matches off loses nothing: what is printed is the whole text.
pub proof fn law_matches_print_all(s: Seq<char>, query: Seq<char>, from: int)
    requires
        0 <= from <= s.len(),
    ensures
        printed(screen::match_draws(s, query, from)) == display::sanitized(s.skip(from)),
    decreases s.len() - from,
{
    if from == s.len() {
        assert(s.skip(from) =~= Seq::<char>::empty());
        assert(display::sanitized(Seq::<char>::empty()) =~= Seq::<char>::empty());
    } else if query.len() == 0 {
        lemma_printed_one(Draw::Print { text: display::sanitized(s.skip(from)) });
    } else {
        text::lemma_find_from(s, query, from);
        match text::find_from(s, query, from) {
            Some(k) => {
                let end = k + query.len();
                law_matches_print_all(s, query, end);
                let head = if k > from {
                    seq![Draw::Print { text: display::sanitized(s.subrange(from, k)) }]
                } else {
                    Seq::empty()
                };
                let hit = seq![
                    Draw::Reverse,
                    Draw::Print { text: display::sanitized(query) },
                    Draw::Reset,
                ];
                let tail = screen::match_draws(s, query, end);
                lemma_printed_concat(head + hit, tail);
                lemma_printed_concat(head, hit);
                lemma_printed_hit(display::sanitized(query));
                assert(printed(head) == display::sanitized(s.subrange(from, k))) by {
                    if k > from {
                        lemma_printed_one(head[0]);
                        assert(head =~= seq![head[0]]);
                    } else {
                        assert(s.subrange(from, k) =~= Seq::<char>::empty());
                        assert(display::sanitized(Seq::<char>::empty()) =~= Seq::<char>::empty());
                    }
                }
                assert(s.skip(from) =~= s.subrange(from, k) + query + s.skip(end));
                laws::law_sanitize_concat(s.subrange(from, k) + query, s.skip(end));
                laws::law_sanitize_concat(s.subrange(from, k), query);
            },
            None => {
                lemma_printed_one(Draw::Print { text: display::sanitized(s.skip(from)) });
            },
        }
    }
}

/// What is set in reverse is what was searched for, and is set back behind it.
pub proof fn law_reverse_is_match(s: Seq<char>, query: Seq<char>, from: int, i: int)
    requires
        0 <= from <= s.len(),
        0 <= i < screen::match_draws(s, query, from).len(),
        screen::match_draws(s, query, from)[i] is Reverse,
    ensures
        i + 2 < screen::match_draws(s, query, from).len(),
        screen::match_draws(s, query, from)[i + 1] == (Draw::Print {
            text: display::sanitized(query),
        }),
        screen::match_draws(s, query, from)[i + 2] is Reset,
    decreases s.len() - from,
{
    text::lemma_find_from(s, query, from);
    if from < s.len() && query.len() > 0 {
        if let Some(k) = text::find_from(s, query, from) {
            let n: int = if k > from {
                4
            } else {
                3
            };
            let ops = screen::match_draws(s, query, from);
            let tail = screen::match_draws(s, query, k + query.len());
            assert(ops.skip(n) =~= tail);
            if i >= n {
                assert(tail[i - n] == ops[i]);
                law_reverse_is_match(s, query, k + query.len(), i - n);
                assert(tail[i - n + 1] == ops[i + 1]);
                assert(tail[i - n + 2] == ops[i + 2]);
            }
        }
    }
}

/// Drawing a row prints its text.
pub proof fn law_row_prints_text(e: EditorState, row: int, width: int)
    ensures
        printed(e.line_draws(row, width)) == e.row_text(row, width),
{
    if e.doc.offset_y + row < e.doc.lines.len() {
        let s = e.visible(e.doc.lines[e.doc.offset_y + row], width);
        if e.search_highlight.len() == 0 {
            lemma_printed_one(Draw::Print { text: display::sanitized(s) });
        } else {
            law_matches_print_all(s, e.search_highlight, 0);
            assert(s.skip(0) =~= s);
        }
    }
}

/// Once a picture is on the screen, each row shows its text: a row that is drawn
/// prints it, and a row that is left alone showed it already.
pub proof fn law_rows_up_to_date(e: EditorState, row: int, size: (u16, u16))
    requires
        0 <= row < screen::text_rows(size.1),
    ensures
        e.draws_row(row, size) ==> printed(e.row_draws(row, size)) == e.row_text(
            row,
            size.0 as int,
        ),
        !e.draws_row(row, size) ==> e.row_draws(row, size).len() == 0 && e.last_row(row)
            == e.row_text(row, size.0 as int),
{
    if e.draws_row(row, size) {
        let head = seq![Draw::MoveTo { x: 0, y: row as u16 }, Draw::ClearLine];
        let line = e.line_draws(row, size.0 as int);
        lemma_printed_concat(head, line);
        assert(head =~= seq![head[0]] + seq![head[1]]);
        lemma_printed_concat(seq![head[0]], seq![head[1]]);
        lemma_printed_one(head[0]);
        lemma_printed_one(head[1]);
        law_row_prints_text(e, row, size.0 as int);
        assert(printed(e.row_draws(row, size)) =~= e.row_text(row, size.0 as int));
    }
}

/// On a screen that has room for it, the cursor is set to the place at which its
/// character is shown.
pub proof fn law_cursor_in_place(e: EditorState, size: (u16, u16))
    requires
        e.wf(),
        e.ai_output is None,
        size.0 >= 1,
        size.1 >= 2,
    ensures
        ({
            let p = e.positioned(size);
            let x = e.doc.cursor_x - p.doc.offset_x;
            let y = e.doc.cursor_y - p.doc.offset_y;
            &&& 0 <= x < size.0
            &&& 0 <= y < screen::text_rows(size.1)
            &&& p.cursor_draws(size) == seq![Draw::MoveTo { x: x as u16, y: y as u16 }]
        }),
{
    laws::law_cursor_on_screen(e.doc, size.0 as int, size.1 as int);
}

proof fn lemma_no_rows(f: spec_fn(int) -> Seq<Draw>, n: int)
    requires
        0 <= n,
        forall|r: int| 0 <= r < n ==> (#[trigger] f(r)).len() == 0,
    ensures
        Seq::new(n as nat, f).flatten() == Seq::<Draw>::empty(),
    decreases n,
{
    if n > 0 {
        lemma_no_rows(f, n - 1);
        screen::lemma_rows_step(f, n - 1);
        assert(f(n - 1) =~= Seq::<Draw>::empty());
        assert(Seq::<Draw>::empty() + f(n - 1) =~= Seq::<Draw>::empty());
    } else {
        assert(Seq::new(0, f) =~= Seq::<Seq<Draw>>::empty());
    }
}

/// Once a picture is on the screen, drawing the same editor again at the same time and
/// size draws no row of text, nor the status row: it only sets the cursor. A screen that
/// was scrolled for the picture is not scrolled again.
pub proof fn law_unchanged_rows_stay(e: EditorState, size: (u16, u16), now: u64, row: int)
    ensures
        ({
            let d = e.drawn(Some(e.shown_rows(size, now)), size);
            &&& 0 <= row < screen::text_rows(size.1) ==> !d.draws_row(row, size)
            &&& d.status_draws(size, now).len() == 0
            &&& d.document_draws(size, now) == d.cursor_draws(size)
        }),
        e.wf() && e.ai_output is None ==> ({
            let p = e.positioned(size);
            let d = p.drawn(Some(p.shown_rows(size, now)), size);
            &&& d.positioned(size) == d
            &&& d.document_draws(size, now) == d.cursor_draws(size)
        }),
{
    lemma_nothing_to_draw(e, size, now);
    if e.wf() && e.ai_output is None {
        lemma_nothing_to_draw(e.positioned(size), size, now);
        laws::law_scroll_once(e.doc, size.0 as int, size.1 as int);
    }
}

proof fn lemma_nothing_to_draw(e: EditorState, size: (u16, u16), now: u64)
    ensures
        ({
            let d = e.drawn(Some(e.shown_rows(size, now)), size);
            &&& forall|r: int|
                0 <= r < screen::text_rows(size.1) ==> !#[trigger] d.draws_row(r, size)
            &&& d.status_draws(size, now).len() == 0
            &&& d.document_draws(size, now) == d.cursor_draws(size)
        }),
{
    let d = e.drawn(Some(e.shown_rows(size, now)), size);
    let n = screen::text_rows(size.1);
    let f = |r: int| d.row_draws(r, size);
    assert(d.status_line(now) == e.status_line(now));
    assert forall|r: int| 0 <= r < n implies !#[trigger] d.draws_row(r, size) by {
        assert(d.row_text(r, size.0 as int) == e.row_text(r, size.0 as int));
    }
    assert forall|r: int| 0 <= r < n implies (#[trigger] f(r)).len() == 0 by {
        assert(!d.draws_row(r, size));
    }
    lemma_no_rows(f, n);
    assert(d.document_draws(size, now) =~= d.cursor_draws(size));
}

} // verus!
