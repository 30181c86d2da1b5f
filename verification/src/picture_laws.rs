//! What stands on the screen once the instructions of a picture are carried out.

use crate::display;
use crate::screen;
use crate::screen::Draw;
use crate::screen_laws;
use crate::state::EditorState;
use crate::text;
use crate::text_laws;
use vstd::prelude::*;

verus! {

// ---------------------------------------------------------------------------
// A terminal
// ---------------------------------------------------------------------------

/// A terminal: what stands in its rows, and where the next character goes.
#[verifier::ext_equal]
pub struct Terminal {
    pub rows: Seq<Seq<char>>,
    pub x: int,
    pub y: int,
}

/// A row with a text put into it from column `x` on.
pub open spec fn overwritten(row: Seq<char>, x: int, t: Seq<char>) -> Seq<char> {
    if x + t.len() <= row.len() {
        row.take(x) + t + row.skip(x + t.len())
    } else if x <= row.len() {
        row.take(x) + t
    } else {
        row + Seq::new((x - row.len()) as nat, |i: int| ' ') + t
    }
}

impl Terminal {
    /// The terminal after one instruction.
    pub open spec fn obeying(self, op: Draw) -> Terminal {
        match op {
            Draw::ClearAll => Terminal {
                rows: Seq::new(self.rows.len(), |i: int| Seq::<char>::empty()),
                ..self
            },
            Draw::ClearLine => Terminal {
                rows: self.rows.update(self.y, Seq::<char>::empty()),
                ..self
            },
            Draw::MoveTo { x, y } => Terminal { x: x as int, y: y as int, ..self },
            Draw::Print { text } => Terminal {
                rows: self.rows.update(self.y, overwritten(self.rows[self.y], self.x, text)),
                x: self.x + text.len(),
                ..self
            },
            Draw::Reverse => self,
            Draw::Reset => self,
        }
    }

    /// The terminal after a list of instructions.
    pub open spec fn after(self, ops: Seq<Draw>) -> Terminal
        decreases ops.len(),
    {
        if ops.len() == 0 {
            self
        } else {
            self.after(ops.drop_last()).obeying(ops.last())
        }
    }
}

proof fn lemma_after_concat(t: Terminal, a: Seq<Draw>, b: Seq<Draw>)
    ensures
        t.after(a + b) == t.after(a).after(b),
    decreases b.len(),
{
    if b.len() == 0 {
        assert(a + b =~= a);
    } else {
        assert((a + b).drop_last() =~= a + b.drop_last());
        lemma_after_concat(t, a, b.drop_last());
    }
}

proof fn lemma_after_one(t: Terminal, op: Draw)
    ensures
        t.after(seq![op]) == t.obeying(op),
{
    assert(seq![op].drop_last() =~= Seq::<Draw>::empty());
    reveal_with_fuel(Terminal::after, 2);
}

/// The instruction prints or changes how text is set off.
spec fn stays(op: Draw) -> bool {
    op is Print || op is Reverse || op is Reset
}

proof fn lemma_prints_append(t: Terminal, ops: Seq<Draw>)
    requires
        0 <= t.y < t.rows.len(),
        t.x == t.rows[t.y].len(),
        forall|i: int| 0 <= i < ops.len() ==> stays(#[trigger] ops[i]),
    ensures
        ({
            let u = t.after(ops);
            let row = t.rows[t.y] + screen_laws::printed(ops);
            u == (Terminal { rows: t.rows.update(t.y, row), x: row.len() as int, y: t.y })
        }),
    decreases ops.len(),
{
    if ops.len() == 0 {
        assert(t.rows[t.y] + Seq::<char>::empty() =~= t.rows[t.y]);
        assert(t.rows.update(t.y, t.rows[t.y]) =~= t.rows);
    } else {
        let head = ops.drop_last();
        let op = ops.last();
        assert forall|i: int| 0 <= i < head.len() implies stays(#[trigger] head[i]) by {
            assert(head[i] == ops[i]);
        }
        assert(stays(ops[ops.len() - 1]));
        lemma_prints_append(t, head);
        screen_laws::lemma_printed_concat(head, seq![op]);
        screen_laws::lemma_printed_one(op);
        assert(head + seq![op] =~= ops);
        let m = t.after(head);
        let row = t.rows[t.y] + screen_laws::printed(head);
        assert(m.rows[t.y] == row);
        assert(t.rows[t.y] + screen_laws::printed(ops) =~= row + screen_laws::printed_by(op));
        if op is Print {
            let p = screen_laws::printed_by(op);
            assert(overwritten(row, row.len() as int, p) =~= row + p) by {
                assert(row.take(row.len() as int) =~= row);
                if p.len() == 0 {
                    assert(row.skip(row.len() as int) =~= Seq::<char>::empty());
                }
            }
            assert(m.rows.update(t.y, row + p) =~= t.rows.update(t.y, row + p));
        } else {
            assert(row + Seq::<char>::empty() =~= row);
        }
    }
}

proof fn lemma_matches_stay(s: Seq<char>, query: Seq<char>, from: int)
    ensures
        forall|i: int|
            0 <= i < screen::match_draws(s, query, from).len() ==> stays(
                #[trigger] screen::match_draws(s, query, from)[i],
            ),
    decreases s.len() - from,
{
    if 0 <= from < s.len() && query.len() > 0 {
        text::lemma_find_from(s, query, from);
        if let Some(k) = text::find_from(s, query, from) {
            lemma_matches_stay(s, query, k + query.len());
            let n: int = if k > from {
                4
            } else {
                3
            };
            let ops = screen::match_draws(s, query, from);
            let tail = screen::match_draws(s, query, k + query.len());
            assert forall|i: int| 0 <= i < ops.len() implies stays(#[trigger] ops[i]) by {
                if i >= n {
                    assert(tail[i - n] == ops[i]);
                }
            }
        }
    }
}

// ---------------------------------------------------------------------------
// The document
// ---------------------------------------------------------------------------

/// What row `row` of a picture of the document is to show: the characters of its line
/// from the first column on, as many as fit, as they are shown; nothing below the last
/// line.
pub open spec fn row_of(e: EditorState, row: int, width: int) -> Seq<char> {
    let y = e.doc.offset_y + row;
    let x = e.doc.offset_x;
    if y >= e.doc.lines.len() || x >= e.doc.lines[y].len() {
        Seq::empty()
    } else if x + width <= e.doc.lines[y].len() {
        display::sanitized(e.doc.lines[y].subrange(x, x + width))
    } else {
        display::sanitized(e.doc.lines[y].skip(x))
    }
}

/// What the status row is to show: the status line cut or filled with blanks to the width
/// of the screen.
pub open spec fn status_of(line: Seq<char>, width: int) -> Seq<char> {
    Seq::new(
        width as nat,
        |i: int|
            if i < line.len() {
                line[i]
            } else {
                ' '
            },
    )
}

/// The text in a row of the screen.
pub proof fn law_row_text(e: EditorState, row: int, width: int)
    requires
        0 <= e.doc.offset_x,
        0 <= e.doc.offset_y,
        0 <= row,
        0 <= width,
    ensures
        e.row_text(row, width) == row_of(e, row, width),
{
    let y = e.doc.offset_y + row;
    let x = e.doc.offset_x;
    text_laws::law_shown_character(' ');
    if y < e.doc.lines.len() {
        let line = e.doc.lines[y];
        let w = e.visible(line, width);
        if x >= line.len() {
            assert(w =~= Seq::<char>::empty());
        } else if x + width <= line.len() {
            assert(w =~= line.subrange(x, x + width));
        } else {
            assert(w =~= line.skip(x));
        }
    }
}

/// A text fitted into the status row.
pub proof fn law_status_row(line: Seq<char>, width: int)
    requires
        0 <= width,
    ensures
        screen::fitted(line, width) == status_of(line, width),
{
    assert(screen::fitted(line, width) =~= status_of(line, width));
}

/// The rows that are built for a screen: its rows of text, and the status line behind
/// them.
pub proof fn law_built_rows(e: EditorState, width: int, rows: int, now: u64)
    requires
        0 <= e.doc.offset_x,
        0 <= e.doc.offset_y,
        0 <= rows,
        0 <= width,
    ensures
        e.row_texts(width, rows, now).len() == rows + 1,
        forall|r: int|
            0 <= r < rows ==> #[trigger] e.row_texts(width, rows, now)[r] == row_of(e, r, width),
        e.row_texts(width, rows, now)[rows] == e.status_line(now),
{
    assert forall|r: int| 0 <= r < rows implies #[trigger] e.row_texts(width, rows, now)[r]
        == row_of(e, r, width) by {
        law_row_text(e, r, width);
    }
}

proof fn lemma_row_drawn(e: EditorState, t: Terminal, row: int, size: (u16, u16))
    requires
        0 <= e.doc.offset_x,
        0 <= e.doc.offset_y,
        0 <= row < t.rows.len(),
        row < screen::text_rows(size.1),
        !e.draws_row(row, size) ==> t.rows[row] == e.last_row(row),
    ensures
        t.after(e.row_draws(row, size)).rows == t.rows.update(row, row_of(e, row, size.0 as int)),
{
    let width = size.0 as int;
    law_row_text(e, row, width);
    if e.draws_row(row, size) {
        let move_op = Draw::MoveTo { x: 0, y: row as u16 };
        let line = e.line_draws(row, width);
        let head = seq![move_op, Draw::ClearLine];
        lemma_after_concat(t, head, line);
        assert(head =~= seq![move_op] + seq![Draw::ClearLine]);
        lemma_after_concat(t, seq![move_op], seq![Draw::ClearLine]);
        lemma_after_one(t, move_op);
        lemma_after_one(t.obeying(move_op), Draw::ClearLine);
        let u = t.after(head);
        assert(u.rows == t.rows.update(row, Seq::<char>::empty()));
        assert forall|i: int| 0 <= i < line.len() implies stays(#[trigger] line[i]) by {
            if e.doc.offset_y + row < e.doc.lines.len() && e.search_highlight.len() > 0 {
                let s = e.visible(e.doc.lines[e.doc.offset_y + row], width);
                lemma_matches_stay(s, e.search_highlight, 0);
            }
        }
        lemma_prints_append(u, line);
        screen_laws::law_row_prints_text(e, row, width);
        assert(Seq::<char>::empty() + e.row_text(row, width) =~= e.row_text(row, width));
        assert(u.rows.update(row, e.row_text(row, width)) =~= t.rows.update(
            row,
            e.row_text(row, width),
        ));
    } else {
        assert(e.row_draws(row, size) =~= Seq::<Draw>::empty());
        assert(t.rows.update(row, t.rows[row]) =~= t.rows);
    }
}

proof fn lemma_rows_drawn(e: EditorState, t: Terminal, n: int, size: (u16, u16))
    requires
        0 <= e.doc.offset_x,
        0 <= e.doc.offset_y,
        0 <= n <= screen::text_rows(size.1),
        n <= t.rows.len(),
        forall|r: int|
            0 <= r < n && !#[trigger] e.draws_row(r, size) ==> t.rows[r] == e.last_row(r),
    ensures
        ({
            let u = t.after(e.rows_draws(n, size));
            &&& u.rows.len() == t.rows.len()
            &&& forall|r: int|
                0 <= r < n ==> #[trigger] u.rows[r] == row_of(e, r, size.0 as int)
            &&& forall|r: int| n <= r < t.rows.len() ==> #[trigger] u.rows[r] == t.rows[r]
        }),
    decreases n,
{
    let f = |r: int| e.row_draws(r, size);
    if n > 0 {
        lemma_rows_drawn(e, t, n - 1, size);
        screen::lemma_rows_step(f, n - 1);
        let m = t.after(e.rows_draws(n - 1, size));
        lemma_after_concat(t, e.rows_draws(n - 1, size), e.row_draws(n - 1, size));
        assert(m.rows[n - 1] == t.rows[n - 1]);
        lemma_row_drawn(e, m, n - 1, size);
    } else {
        assert(Seq::new(0, f) =~= Seq::<Seq<Draw>>::empty());
        assert(e.rows_draws(0, size) =~= Seq::<Draw>::empty());
    }
}

/// Carrying out a picture of the document puts every line in its row, whatever the screen
/// held before: each row of text shows the part of its line that the screen has room for,
/// the last row shows the status line, and the terminal is left at the place of the
/// cursor. Where rows were left alone because they were shown already, that is so if the
/// screen shows what the editor keeps of the last picture. What the editor keeps of this
/// picture is what stands on the screen then.
pub proof fn law_document_on_screen(e: EditorState, t: Terminal, size: (u16, u16), now: u64)
    requires
        0 <= e.doc.offset_x,
        0 <= e.doc.offset_y,
        size.1 >= 1,
        t.rows.len() == size.1,
        !e.force_full_redraw && e.last_size == size && e.last_rendered_rows.len() == size.1
            ==> t.rows == e.last_rendered_rows,
    ensures
        ({
            let u = t.after(e.document_draws(size, now));
            &&& u.rows.len() == size.1
            &&& forall|r: int|
                0 <= r < size.1 - 1 ==> #[trigger] u.rows[r] == row_of(e, r, size.0 as int)
            &&& u.rows[size.1 - 1] == status_of(e.status_line(now), size.0 as int)
            &&& u.rows == e.shown_rows(size, now)
            &&& 0 <= e.doc.cursor_x - e.doc.offset_x < size.0 ==> u.x == e.doc.cursor_x
                - e.doc.offset_x
            &&& 0 <= e.doc.cursor_y - e.doc.offset_y < size.1 - 1 ==> u.y == e.doc.cursor_y
                - e.doc.offset_y
        }),
{
    let n = screen::text_rows(size.1);
    let width = size.0 as int;
    let rows = e.rows_draws(n, size);
    let status = e.status_draws(size, now);
    let cursor = e.cursor_draws(size);
    lemma_after_concat(t, rows + status, cursor);
    lemma_after_concat(t, rows, status);
    lemma_rows_drawn(e, t, n, size);
    let a = t.after(rows);
    lemma_status_drawn(e, a, size, now);
    let b = a.after(status);
    lemma_after_one(b, cursor[0]);
    assert(cursor =~= seq![cursor[0]]);
    let u = t.after(e.document_draws(size, now));
    assert(u.rows == b.rows);
    assert forall|r: int| 0 <= r < n implies #[trigger] u.rows[r] == row_of(e, r, width) by {
        assert(a.rows[r] == row_of(e, r, width));
    }
    assert(u.rows =~= e.shown_rows(size, now)) by {
        assert forall|r: int| 0 <= r < n implies #[trigger] u.rows[r] == e.shown_rows(size, now)[r] by {
            law_row_text(e, r, width);
        }
        law_status_row(e.status_line(now), width);
    }
}

proof fn lemma_status_drawn(e: EditorState, t: Terminal, size: (u16, u16), now: u64)
    requires
        size.1 >= 1,
        t.rows.len() == size.1,
        !e.draws_all(size) ==> t.rows[size.1 - 1] == e.last_row(size.1 - 1),
    ensures
        t.after(e.status_draws(size, now)).rows == t.rows.update(
            size.1 - 1,
            status_of(e.status_line(now), size.0 as int),
        ),
{
    let y = size.1 - 1;
    let line = screen::fitted(e.status_line(now), size.0 as int);
    law_status_row(e.status_line(now), size.0 as int);
    if e.draws_all(size) || line != e.last_row(y) {
        let a = Draw::MoveTo { x: 0, y: y as u16 };
        let p = Draw::Print { text: line };
        let ops = seq![a, Draw::Reverse, Draw::ClearLine, p, Draw::Reset];
        assert(e.status_draws(size, now) =~= ops);
        lemma_five(t, a, Draw::Reverse, Draw::ClearLine, p, Draw::Reset);
        let c = t.obeying(a).obeying(Draw::Reverse).obeying(Draw::ClearLine);
        assert(overwritten(Seq::<char>::empty(), 0, line) =~= line);
        assert(c.rows.update(y, line) =~= t.rows.update(y, line));
    } else {
        assert(e.status_draws(size, now) =~= Seq::<Draw>::empty());
        assert(t.rows.update(y, t.rows[y]) =~= t.rows);
    }
}

proof fn lemma_five(t: Terminal, a: Draw, b: Draw, c: Draw, d: Draw, f: Draw)
    ensures
        t.after(seq![a, b, c, d, f]) == t.obeying(a).obeying(b).obeying(c).obeying(d).obeying(f),
{
    lemma_four(t, a, b, c, d);
    assert(seq![a, b, c, d, f] =~= seq![a, b, c, d] + seq![f]);
    lemma_after_concat(t, seq![a, b, c, d], seq![f]);
    lemma_after_one(t.after(seq![a, b, c, d]), f);
}

proof fn lemma_four(t: Terminal, a: Draw, b: Draw, c: Draw, d: Draw)
    ensures
        t.after(seq![a, b, c, d]) == t.obeying(a).obeying(b).obeying(c).obeying(d),
{
    assert(seq![a, b, c, d] =~= seq![a] + (seq![b] + (seq![c] + seq![d])));
    lemma_after_concat(t, seq![a], seq![b] + (seq![c] + seq![d]));
    lemma_after_one(t, a);
    let u = t.obeying(a);
    lemma_after_concat(u, seq![b], seq![c] + seq![d]);
    lemma_after_one(u, b);
    let v = u.obeying(b);
    lemma_after_concat(v, seq![c], seq![d]);
    lemma_after_one(v, c);
    lemma_after_one(v.obeying(c), d);
}

/// Scrolling for a picture moves the screen over the document, as far as the cursor asks
/// for, and changes nothing else; the view of a reply is not moved.
pub proof fn law_positioned(e: EditorState, size: (u16, u16))
    ensures
        e.ai_output is Some ==> e.positioned(size) == e,
        e.ai_output is None ==> e.positioned(size) == (EditorState {
            doc: e.doc.scrolled(size.0 as int, size.1 as int),
            ..e
        }),
{
}

/// Once a picture is on the screen nothing is left to draw, and the editor keeps what the
/// screen shows and its size, unless it is the picture of a reply.
pub proof fn law_picture_kept(e: EditorState, rows: Seq<Seq<char>>, size: (u16, u16))
    ensures
        e.drawn(Some(rows), size) == (EditorState {
            needs_redraw: false,
            force_full_redraw: false,
            last_rendered_rows: rows,
            last_size: size,
            ..e
        }),
        e.drawn(None, size) == (EditorState {
            needs_redraw: false,
            force_full_redraw: false,
            ..e
        }),
{
}

// ---------------------------------------------------------------------------
// What is set off
// ---------------------------------------------------------------------------

proof fn lemma_find_shift(s: Seq<char>, query: Seq<char>, from: int, base: int)
    requires
        0 <= base <= from,
        base <= s.len(),
    ensures
        text::find_from(s.skip(base), query, from - base) == (match text::find_from(
            s,
            query,
            from,
        ) {
            Some(k) => Some(k - base),
            None => None,
        }),
    decreases s.len() + 1 - from,
{
    let r = s.skip(base);
    if from + query.len() <= s.len() {
        assert(r.subrange(from - base, from - base + query.len()) =~= s.subrange(
            from,
            from + query.len(),
        ));
        if !text::occurs_at(s, query, from) {
            lemma_find_shift(s, query, from + 1, base);
        }
    }
}

proof fn lemma_matches_shift(s: Seq<char>, query: Seq<char>, from: int, base: int)
    requires
        0 <= base <= from,
        base <= s.len(),
    ensures
        screen::match_draws(s.skip(base), query, from - base) == screen::match_draws(
            s,
            query,
            from,
        ),
    decreases s.len() - from,
{
    let r = s.skip(base);
    if from < s.len() {
        assert(r.skip(from - base) =~= s.skip(from));
        if query.len() > 0 {
            lemma_find_shift(s, query, from, base);
            text::lemma_find_from(s, query, from);
            if let Some(k) = text::find_from(s, query, from) {
                assert(r.subrange(from - base, k - base) =~= s.subrange(from, k));
                lemma_matches_shift(s, query, k + query.len(), base);
            }
        }
    }
}

/// Of a text in which what was searched for stands, what is before the first such place
/// is printed as it is, the place itself in reverse, and the rest in the same way. A text
/// in which it does not stand is printed as it is.
pub proof fn law_first_match_set_off(a: Seq<char>, query: Seq<char>, b: Seq<char>)
    requires
        query.len() > 0,
        forall|j: int|
            0 <= j < a.len() ==> !#[trigger] text_laws::stands(a + query + b, query, j),
    ensures
        ({
            let hit = seq![
                Draw::Reverse,
                Draw::Print { text: display::sanitized(query) },
                Draw::Reset,
            ];
            let rest = screen::match_draws(b, query, 0);
            &&& a.len() == 0 ==> screen::match_draws(a + query + b, query, 0) == hit + rest
            &&& a.len() > 0 ==> screen::match_draws(a + query + b, query, 0) == seq![
                Draw::Print { text: display::sanitized(a) },
            ] + hit + rest
        }),
{
    let s = a + query + b;
    let k = a.len() as int;
    text_laws::law_find_is_first(s, query, 0);
    assert(text_laws::stands(s, query, k));
    assert(text::find_from(s, query, 0) == Some(k));
    assert(s.subrange(0, k) =~= a);
    assert(s.skip(k + query.len()) =~= b);
    lemma_matches_shift(s, query, k + query.len(), k + query.len());
}

/// A text in which what was searched for does not stand is printed as it is.
pub proof fn law_nothing_set_off(s: Seq<char>, query: Seq<char>)
    requires
        forall|j: int| 0 <= j ==> !#[trigger] text_laws::stands(s, query, j),
    ensures
        s.len() > 0 ==> screen::match_draws(s, query, 0) == seq![
            Draw::Print { text: display::sanitized(s) },
        ],
        s.len() == 0 ==> screen::match_draws(s, query, 0).len() == 0,
{
    text_laws::law_find_is_first(s, query, 0);
    assert(s.skip(0) =~= s);
}

/// In a row of the screen what was searched for last is set off in what is visible of the
/// line; without a search nothing is.
pub proof fn law_row_set_off(e: EditorState, row: int, width: int, shown: Seq<char>)
    requires
        0 <= e.doc.offset_x,
        0 <= e.doc.offset_y,
        0 <= row,
        0 <= width,
        e.doc.offset_y + row < e.doc.lines.len(),
        e.doc.offset_x + width <= e.doc.lines[e.doc.offset_y + row].len() ==> shown
            == e.doc.lines[e.doc.offset_y + row].subrange(e.doc.offset_x, e.doc.offset_x + width),
        e.doc.offset_x <= e.doc.lines[e.doc.offset_y + row].len() < e.doc.offset_x + width ==> shown
            == e.doc.lines[e.doc.offset_y + row].skip(e.doc.offset_x),
        e.doc.offset_x > e.doc.lines[e.doc.offset_y + row].len() ==> shown.len() == 0,
    ensures
        e.search_highlight.len() == 0 ==> e.line_draws(row, width) == seq![
            Draw::Print { text: display::sanitized(shown) },
        ],
        e.search_highlight.len() > 0 ==> e.line_draws(row, width) == screen::match_draws(
            shown,
            e.search_highlight,
            0,
        ),
{
    let line = e.doc.lines[e.doc.offset_y + row];
    assert(e.visible(line, width) =~= shown);
}

// ---------------------------------------------------------------------------
// Replies
// ---------------------------------------------------------------------------

proof fn lemma_reply_rows_drawn(e: EditorState, t: Terminal, n: int, width: int)
    requires
        e.ai_output is Some,
        0 <= e.ai_scroll,
        0 <= width,
        0 <= n <= t.rows.len(),
        n <= 0xffff,
        forall|r: int| 0 <= r < t.rows.len() ==> (#[trigger] t.rows[r]).len() == 0,
    ensures
        ({
            let u = t.after(e.reply_rows_draws(n, width));
            &&& u.rows.len() == t.rows.len()
            &&& forall|r: int|
                0 <= r < n ==> #[trigger] u.rows[r] == reply_row_of(e, r, width)
            &&& forall|r: int| n <= r < t.rows.len() ==> #[trigger] u.rows[r] == t.rows[r]
        }),
    decreases n,
{
    let f = |r: int| e.reply_row_draws(r, width);
    if n > 0 {
        let r = n - 1;
        lemma_reply_rows_drawn(e, t, r, width);
        screen::lemma_rows_step(f, r);
        let m = t.after(e.reply_rows_draws(r, width));
        let more = e.reply_row_draws(r, width);
        lemma_after_concat(t, e.reply_rows_draws(r, width), more);
        assert(m.rows[r] == t.rows[r]);
        assert(m.rows[r] =~= Seq::<char>::empty());
        let reply = e.ai_output->0;
        if e.ai_scroll + r < reply.len() {
            let line = reply[e.ai_scroll + r];
            text_laws::law_truncated(line, width);
            let cut = display::truncated(line, width);
            assert(cut == reply_row_of(e, r, width));
            let a = Draw::MoveTo { x: 0, y: r as u16 };
            let b = Draw::Print { text: cut };
            assert(more =~= seq![a] + seq![b]);
            lemma_after_concat(m, seq![a], seq![b]);
            lemma_after_one(m, a);
            lemma_after_one(m.obeying(a), b);
            assert(overwritten(Seq::<char>::empty(), 0, cut) =~= cut);
        } else {
            assert(more =~= Seq::<Draw>::empty());
        }
    } else {
        assert(Seq::new(0, f) =~= Seq::<Seq<Draw>>::empty());
        assert(e.reply_rows_draws(0, width) =~= Seq::<Draw>::empty());
    }
}

/// What row `row` of a picture of a reply is to show: the line that many lines below the
/// first one in view, as far as it fits; nothing below the last line.
pub open spec fn reply_row_of(e: EditorState, row: int, width: int) -> Seq<char> {
    let reply = e.ai_output->0;
    let i = e.ai_scroll + row;
    if i >= reply.len() {
        Seq::empty()
    } else if reply[i].len() <= width {
        reply[i]
    } else {
        reply[i].take(width)
    }
}

/// Carrying out a picture of a reply puts every line of it in its row, whatever the
/// screen held before: the first row shows the first line in view, each row below it the
/// next line, as far as they fit, and the last row says how to scroll and to leave. A
/// reply that has just come shows from its first line on.
pub proof fn law_reply_on_screen(e: EditorState, t: Terminal, size: (u16, u16))
    requires
        e.ai_output is Some,
        0 <= e.ai_scroll,
        size.1 >= 1,
        t.rows.len() == size.1,
    ensures
        ({
            let u = t.after(e.reply_draws(size));
            &&& u.rows.len() == size.1
            &&& forall|r: int|
                0 <= r < size.1 - 1 ==> #[trigger] u.rows[r] == reply_row_of(e, r, size.0 as int)
            &&& u.rows[size.1 - 1] == status_of(
                "[AI VIEW] \u{2191}/\u{2193} scroll | Esc to exit"@,
                size.0 as int,
            )
        }),
{
    let n = size.1 - 1;
    let width = size.0 as int;
    let rows = e.reply_rows_draws(n, width);
    let line = screen::fitted(screen::reply_status(), width);
    law_status_row(screen::reply_status(), width);
    let m = Draw::MoveTo { x: 0, y: n as u16 };
    let p = Draw::Print { text: line };
    let status = seq![m, Draw::Reverse, p, Draw::Reset];
    let clear = seq![Draw::ClearAll];
    assert(e.reply_draws(size) =~= clear + rows + status);
    lemma_after_concat(t, clear + rows, status);
    lemma_after_concat(t, clear, rows);
    lemma_after_one(t, Draw::ClearAll);
    let a = t.obeying(Draw::ClearAll);
    lemma_reply_rows_drawn(e, a, n, width);
    let b = a.after(rows);
    lemma_four(b, m, Draw::Reverse, p, Draw::Reset);
    assert(b.rows[n] =~= Seq::<char>::empty());
    assert(overwritten(Seq::<char>::empty(), 0, line) =~= line);
}

/// On a screen without rows the picture of a reply only clears it, and that of a document
/// sets no cursor and no row of text.
pub proof fn law_screen_without_rows(e: EditorState, width: u16, now: u64)
    ensures
        e.ai_output is Some ==> e.reply_draws((width, 0)) == seq![Draw::ClearAll],
        e.rows_draws(screen::text_rows(0), (width, 0)).len() == 0,
        e.cursor_draws((width, 0)).len() == 0,
{
    let f = |r: int| e.reply_row_draws(r, width as int);
    let g = |r: int| e.row_draws(r, (width, 0u16));
    assert(Seq::new(0, f) =~= Seq::<Seq<Draw>>::empty());
    assert(Seq::new(0, g) =~= Seq::<Seq<Draw>>::empty());
    assert(e.reply_rows_draws(0, width as int) =~= Seq::<Draw>::empty());
    assert(e.rows_draws(0, (width, 0u16)) =~= Seq::<Draw>::empty());
    if e.ai_output is Some {
        assert(e.reply_draws((width, 0)) =~= seq![Draw::ClearAll]);
    }
}

// ---------------------------------------------------------------------------
// Which instructions are given
// ---------------------------------------------------------------------------

/// Unless the whole screen is to be drawn, a row is drawn exactly if its text is not what
/// it showed last, and so is the status row. The whole screen is drawn if that was asked
/// for, if its size has changed, or if another number of rows was shown last.
pub proof fn law_only_changed_rows(e: EditorState, row: int, size: (u16, u16), now: u64)
    requires
        0 <= e.doc.offset_x,
        0 <= e.doc.offset_y,
        size.1 >= 1,
        0 <= row < size.1 - 1,
    ensures
        ({
            let all = e.force_full_redraw || e.last_size != size || e.last_rendered_rows.len()
                != size.1;
            let status = status_of(e.status_line(now), size.0 as int);
            &&& e.row_draws(row, size).len() > 0 <==> all || row_of(e, row, size.0 as int)
                != e.last_rendered_rows[row]
            &&& e.status_draws(size, now).len() > 0 <==> all || status
                != e.last_rendered_rows[size.1 - 1]
        }),
{
    law_row_text(e, row, size.0 as int);
    law_status_row(e.status_line(now), size.0 as int);
}

/// The status row is cleared and printed in reverse at the bottom of the screen, and the
/// cursor is set last, on the screen.
pub proof fn law_status_and_cursor(e: EditorState, size: (u16, u16), now: u64)
    ensures
        ({
            let bottom = if size.1 > 0 {
                size.1 - 1
            } else {
                0
            };
            &&& e.status_draws(size, now).len() > 0 ==> e.status_draws(size, now) == seq![
                Draw::MoveTo { x: 0, y: bottom as u16 },
                Draw::Reverse,
                Draw::ClearLine,
                Draw::Print { text: status_of(e.status_line(now), size.0 as int) },
                Draw::Reset,
            ]
            &&& e.document_draws(size, now) == e.rows_draws(bottom, size) + e.status_draws(
                size,
                now,
            ) + e.cursor_draws(size)
            &&& e.shown_rows(size, now).len() == bottom + 1
            &&& e.shown_rows(size, now)[bottom] == status_of(e.status_line(now), size.0 as int)
            &&& e.ai_output is Some && size.1 > 0 ==> e.reply_draws(size).skip(
                e.reply_draws(size).len() - 4,
            ) == seq![
                Draw::MoveTo { x: 0, y: bottom as u16 },
                Draw::Reverse,
                Draw::Print {
                    text: status_of(
                        "[AI VIEW] \u{2191}/\u{2193} scroll | Esc to exit"@,
                        size.0 as int,
                    ),
                },
                Draw::Reset,
            ]
        }),
{
    law_status_row(e.status_line(now), size.0 as int);
    law_status_row(screen::reply_status(), size.0 as int);
    if size.1 > 0 {
        let ops = e.reply_draws(size);
        let tail = seq![
            Draw::MoveTo { x: 0, y: (size.1 - 1) as u16 },
            Draw::Reverse,
            Draw::Print { text: screen::fitted(screen::reply_status(), size.0 as int) },
            Draw::Reset,
        ];
        let head = seq![Draw::ClearAll] + e.reply_rows_draws(screen::text_rows(size.1), size.0 as int);
        assert(ops == head + tail);
        assert(ops.skip(ops.len() - 4) =~= tail);
    }
}

/// The cursor is set to its place on the screen, or to the nearest one there is.
pub proof fn law_cursor_set(e: EditorState, size: (u16, u16))
    requires
        size.1 > 0,
    ensures
        ({
            let dx = e.doc.cursor_x - e.doc.offset_x;
            let dy = e.doc.cursor_y - e.doc.offset_y;
            let right = size.0 - 1;
            let low = size.1 - 2;
            e.cursor_draws(size) == seq![
                Draw::MoveTo {
                    x: (if dx < 0 || right < 0 {
                        0
                    } else if dx > right {
                        right
                    } else {
                        dx
                    }) as u16,
                    y: (if dy < 0 || low < 0 {
                        0
                    } else if dy > low {
                        low
                    } else {
                        dy
                    }) as u16,
                },
            ]
        }),
{
}

} // verus!
