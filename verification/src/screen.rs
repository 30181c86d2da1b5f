//! The screen: what is drawn on it, and what was drawn on it last.

use crate::display;
use crate::editor::Editor;
use crate::lines;
use crate::state::EditorState;
use crate::text;
use vstd::prelude::*;

verus! {

/// One instruction to the terminal.
#[derive(Debug)]
pub enum DrawOp {
    ClearAll,
    ClearLine,
    MoveTo { x: u16, y: u16 },
    Print { text: String },
    Reverse,
    Reset,
}

/// One instruction to the terminal, with its text.
pub enum Draw {
    ClearAll,
    ClearLine,
    MoveTo { x: u16, y: u16 },
    Print { text: Seq<char> },
    Reverse,
    Reset,
}

impl View for DrawOp {
    type V = Draw;

    open spec fn view(&self) -> Draw {
        match *self {
            DrawOp::ClearAll => Draw::ClearAll,
            DrawOp::ClearLine => Draw::ClearLine,
            DrawOp::MoveTo { x, y } => Draw::MoveTo { x, y },
            DrawOp::Print { text } => Draw::Print { text: text@ },
            DrawOp::Reverse => Draw::Reverse,
            DrawOp::Reset => Draw::Reset,
        }
    }
}

/// A list of instructions, with their texts.
pub open spec fn draws(ops: Seq<DrawOp>) -> Seq<Draw> {
    ops.map_values(|op: DrawOp| op@)
}

/// A picture of the editor: the instructions that draw it on a screen of a size, and
/// the rows that the screen shows then, unless it is the picture of a reply.
pub struct Frame {
    pub ops: Vec<DrawOp>,
    pub rows: Option<Vec<String>>,
    pub size: (u16, u16),
}

/// The instructions that print `s` from character `from` on, with each place where it
/// holds `query` in reverse.
pub open spec fn match_draws(s: Seq<char>, query: Seq<char>, from: int) -> Seq<Draw>
    decreases s.len() - from,
    via match_draws_decreases
{
    if from < 0 || from >= s.len() {
        Seq::empty()
    } else if query.len() == 0 {
        seq![Draw::Print { text: display::sanitized(s.skip(from)) }]
    } else {
        match text::find_from(s, query, from) {
            Some(k) => (if k > from {
                seq![Draw::Print { text: display::sanitized(s.subrange(from, k)) }]
            } else {
                Seq::empty()
            }) + seq![
                Draw::Reverse,
                Draw::Print { text: display::sanitized(query) },
                Draw::Reset,
            ] + match_draws(s, query, k + query.len()),
            None => seq![Draw::Print { text: display::sanitized(s.skip(from)) }],
        }
    }
}

#[via_fn]
proof fn match_draws_decreases(s: Seq<char>, query: Seq<char>, from: int) {
    if from >= 0 {
        text::lemma_find_from(s, query, from);
    }
}

/// The number of rows for text on a screen `height` rows high: all but the last.
pub open spec fn text_rows(height: u16) -> int {
    text::max(height - 1, 0)
}

/// A text in the status row: exactly as wide as the screen.
pub open spec fn fitted(s: Seq<char>, width: int) -> Seq<char> {
    display::padded(display::truncated(s, width), width)
}

/// The status row below a reply.
pub open spec fn reply_status() -> Seq<char> {
    "[AI VIEW] \u{2191}/\u{2193} scroll | Esc to exit"@
}

impl EditorState {
    /// The part of a line that the screen shows.
    pub open spec fn visible(self, line: Seq<char>, width: int) -> Seq<char> {
        display::window(line, self.doc.offset_x, width)
    }

    /// The text in row `row` of the screen; empty below the last line.
    pub open spec fn row_text(self, row: int, width: int) -> Seq<char> {
        if self.doc.offset_y + row < self.doc.lines.len() {
            display::sanitized(self.visible(self.doc.lines[self.doc.offset_y + row], width))
        } else {
            Seq::empty()
        }
    }

    /// The texts in the rows of the screen, and the text of the status line.
    pub open spec fn row_texts(self, width: int, rows: int, now: u64) -> Seq<Seq<char>> {
        Seq::new(rows as nat, |i: int| self.row_text(i, width)).push(self.status_line(now))
    }

    /// The instructions that print the text in row `row`, with what was searched for
    /// in reverse.
    pub open spec fn line_draws(self, row: int, width: int) -> Seq<Draw> {
        if self.doc.offset_y + row >= self.doc.lines.len() {
            Seq::empty()
        } else {
            let s = self.visible(self.doc.lines[self.doc.offset_y + row], width);
            if self.search_highlight.len() == 0 {
                seq![Draw::Print { text: display::sanitized(s) }]
            } else {
                match_draws(s, self.search_highlight, 0)
            }
        }
    }

    /// What row `row` of the screen showed last; empty if it showed nothing.
    pub open spec fn last_row(self, row: int) -> Seq<char> {
        if 0 <= row < self.last_rendered_rows.len() {
            self.last_rendered_rows[row]
        } else {
            Seq::empty()
        }
    }

    /// Every row is to be drawn: that was asked for, or the size of the screen or the
    /// number of its rows is not the last one.
    pub open spec fn draws_all(self, size: (u16, u16)) -> bool {
        self.force_full_redraw || self.last_size != size || self.last_rendered_rows.len()
            != text_rows(size.1) + 1
    }

    /// Row `row` is to be drawn.
    pub open spec fn draws_row(self, row: int, size: (u16, u16)) -> bool {
        self.draws_all(size) || self.row_text(row, size.0 as int) != self.last_row(row)
    }

    /// The instructions that bring row `row` up to date.
    pub open spec fn row_draws(self, row: int, size: (u16, u16)) -> Seq<Draw> {
        if self.draws_row(row, size) {
            seq![Draw::MoveTo { x: 0, y: row as u16 }, Draw::ClearLine] + self.line_draws(
                row,
                size.0 as int,
            )
        } else {
            Seq::empty()
        }
    }

    /// The instructions that bring the first `n` rows up to date.
    pub open spec fn rows_draws(self, n: int, size: (u16, u16)) -> Seq<Draw> {
        Seq::new(n as nat, |r: int| self.row_draws(r, size)).flatten()
    }

    /// The instructions that bring the status row up to date.
    pub open spec fn status_draws(self, size: (u16, u16), now: u64) -> Seq<Draw> {
        let line = fitted(self.status_line(now), size.0 as int);
        if self.draws_all(size) || line != self.last_row(text_rows(size.1)) {
            seq![
                Draw::MoveTo { x: 0, y: text_rows(size.1) as u16 },
                Draw::Reverse,
                Draw::ClearLine,
                Draw::Print { text: line },
                Draw::Reset,
            ]
        } else {
            Seq::empty()
        }
    }

    /// The instruction that sets the cursor, on a screen that has a row.
    pub open spec fn cursor_draws(self, size: (u16, u16)) -> Seq<Draw> {
        if size.1 > 0 {
            seq![
                Draw::MoveTo {
                    x: text::min(
                        text::max(self.doc.cursor_x - self.doc.offset_x, 0),
                        text::max(size.0 - 1, 0),
                    ) as u16,
                    y: text::min(
                        text::max(self.doc.cursor_y - self.doc.offset_y, 0),
                        text::max(text_rows(size.1) - 1, 0),
                    ) as u16,
                },
            ]
        } else {
            Seq::empty()
        }
    }

    /// The instructions that draw the document on a screen already scrolled.
    pub open spec fn document_draws(self, size: (u16, u16), now: u64) -> Seq<Draw> {
        self.rows_draws(text_rows(size.1), size) + self.status_draws(size, now)
            + self.cursor_draws(size)
    }

    /// The instructions that print one row of a reply.
    pub open spec fn reply_row_draws(self, row: int, width: int) -> Seq<Draw> {
        let reply = self.ai_output->0;
        if self.ai_scroll + row < reply.len() {
            seq![
                Draw::MoveTo { x: 0, y: row as u16 },
                Draw::Print { text: display::truncated(reply[self.ai_scroll + row], width) },
            ]
        } else {
            Seq::empty()
        }
    }

    /// The instructions that print the first `n` rows of a reply.
    pub open spec fn reply_rows_draws(self, n: int, width: int) -> Seq<Draw> {
        Seq::new(n as nat, |r: int| self.reply_row_draws(r, width)).flatten()
    }

    /// The instructions that draw a reply.
    pub open spec fn reply_draws(self, size: (u16, u16)) -> Seq<Draw> {
        seq![Draw::ClearAll] + self.reply_rows_draws(text_rows(size.1), size.0 as int) + if size.1
            > 0 {
            seq![
                Draw::MoveTo { x: 0, y: (size.1 - 1) as u16 },
                Draw::Reverse,
                Draw::Print { text: fitted(reply_status(), size.0 as int) },
                Draw::Reset,
            ]
        } else {
            Seq::empty()
        }
    }

    /// The editor once its screen is scrolled to be drawn; a reply is not scrolled so.
    pub open spec fn positioned(self, size: (u16, u16)) -> EditorState {
        if self.ai_output is Some {
            self
        } else {
            self.with_doc(self.doc.scrolled(size.0 as int, size.1 as int))
        }
    }

    /// What the rows of the screen show once the document is drawn.
    pub open spec fn shown_rows(self, size: (u16, u16), now: u64) -> Seq<Seq<char>> {
        Seq::new(
            text_rows(size.1) as nat,
            |i: int| self.row_text(i, size.0 as int),
        ).push(fitted(self.status_line(now), size.0 as int))
    }

    /// The editor once a picture of it is on the screen.
    pub open spec fn drawn(self, rows: Option<Seq<Seq<char>>>, size: (u16, u16)) -> EditorState {
        let s = EditorState { needs_redraw: false, force_full_redraw: false, ..self };
        match rows {
            Some(r) => EditorState { last_rendered_rows: r, last_size: size, ..s },
            None => s,
        }
    }
}

/// Rows that a picture shows, as texts.
pub open spec fn rows_of(rows: Option<Vec<String>>) -> Option<Seq<Seq<char>>> {
    match rows {
        Some(v) => Some(lines::contents(v@)),
        None => None,
    }
}

/// The instructions that print `s`, with each place where it holds `query` in reverse.
fn match_ops(s: &Vec<char>, query: &Vec<char>) -> (ops: Vec<DrawOp>)
    requires
        query@.len() > 0,
    ensures
        draws(ops@) == match_draws(s@, query@, 0),
{
    let mut ops: Vec<DrawOp> = Vec::new();
    let mut idx: usize = 0;
    let total: usize = s.len();
    assert(draws(ops@) =~= Seq::<Draw>::empty());
    while idx < s.len()
        invariant
            query@.len() > 0,
            total == s@.len(),
            idx <= s@.len(),
            match_draws(s@, query@, 0) == draws(ops@) + match_draws(s@, query@, idx as int),
        decreases s@.len() - idx,
    {
        let ghost before = draws(ops@);
        proof {
            text::lemma_find_from(s@, query@, idx as int);
        }
        if let Some(pos) = text::find(s, query, idx) {
            if pos > idx {
                let part = text::from_chars(s, idx, pos);
                ops.push(DrawOp::Print { text: display::sanitize_str(part.as_str()) });
            }
            let end: usize = pos + query.len();
            let hit = text::from_chars(s, pos, end);
            assert(hit@ =~= query@);
            ops.push(DrawOp::Reverse);
            ops.push(DrawOp::Print { text: display::sanitize_str(hit.as_str()) });
            ops.push(DrawOp::Reset);
            assert(draws(ops@) =~= before + (if pos > idx {
                seq![Draw::Print { text: display::sanitized(s@.subrange(idx as int, pos as int)) }]
            } else {
                Seq::empty()
            }) + seq![
                Draw::Reverse,
                Draw::Print { text: display::sanitized(query@) },
                Draw::Reset,
            ]);
            assert(before + match_draws(s@, query@, idx as int) =~= draws(ops@) + match_draws(
                s@,
                query@,
                end as int,
            ));
            idx = end;
        } else {
            let part = text::from_chars(s, idx, total);
            assert(part@ =~= s@.skip(idx as int));
            ops.push(DrawOp::Print { text: display::sanitize_str(part.as_str()) });
            assert(draws(ops@) =~= before + match_draws(s@, query@, idx as int));
            idx = total;
        }
    }
    assert(draws(ops@) + Seq::<Draw>::empty() =~= draws(ops@));
    ops
}

/// A text for the status row: exactly as wide as the screen.
fn fit(s: &str, width: usize) -> (r: String)
    ensures
        r@ == fitted(s@, width as int),
{
    let cut = display::truncate_to_width(s, width);
    display::pad_to_width(cut.as_str(), width)
}

/// Appends instructions to others.
fn extend(ops: &mut Vec<DrawOp>, more: Vec<DrawOp>)
    ensures
        draws(final(ops)@) == draws(old(ops)@) + draws(more@),
{
    let ghost before = ops@;
    let mut more = more;
    let ghost added = more@;
    ops.append(&mut more);
    assert(draws(before + added) =~= draws(before) + draws(added));
}

impl Editor {
    /// The part of `line` that the screen shows.
    pub fn visible_plain_text(&self, line: &str, width: usize) -> (s: String)
        ensures
            s@ == display::sanitized(self@.visible(line@, width as int)),
    {
        display::sanitize_str(display::window_of(line, self.offset_x, width))
    }

    /// The texts in the rows of the screen, and the text of the status line.
    pub fn build_rows(&self, width: usize, text_rows: usize, now: u64) -> (rows: Vec<String>)
        ensures
            lines::contents(rows@) == self@.row_texts(width as int, text_rows as int, now),
    {
        let mut rows: Vec<String> = Vec::new();
        let mut i: usize = 0;
        while i < text_rows
            invariant
                i <= text_rows,
                rows@.len() == i,
                lines::contents(rows@) == Seq::new(
                    i as nat,
                    |r: int| self@.row_text(r, width as int),
                ),
            decreases text_rows - i,
        {
            let ghost before = rows@;
            if self.offset_y < self.lines.len() && i < self.lines.len() - self.offset_y {
                let line_idx: usize = self.offset_y + i;
                let row = self.visible_plain_text(self.lines[line_idx].as_str(), width);
                rows.push(row);
            } else {
                let row = String::new();
                rows.push(row);
            }
            assert(rows@[i as int]@ == self@.row_text(i as int, width as int));
            assert(lines::contents(rows@) =~= lines::contents(before).push(
                self@.row_text(i as int, width as int),
            ));
            i = i + 1;
            assert(lines::contents(rows@) =~= Seq::new(
                i as nat,
                |r: int| self@.row_text(r, width as int),
            ));
        }
        let ghost before = rows@;
        rows.push(self.current_status(now));
        assert(lines::contents(rows@) =~= lines::contents(before).push(self@.status_line(now)));
        rows
    }

    /// The instructions that print the text in row `row` of the screen.
    pub fn draw_visible_line(&self, row: usize, width: usize) -> (ops: Vec<DrawOp>)
        ensures
            draws(ops@) == self@.line_draws(row as int, width as int),
    {
        let mut ops: Vec<DrawOp> = Vec::new();
        if self.offset_y >= self.lines.len() || row >= self.lines.len() - self.offset_y {
            assert(draws(ops@) =~= Seq::<Draw>::empty());
            return ops;
        }
        let line = self.lines[self.offset_y + row].as_str();
        let visible = display::window_of(line, self.offset_x, width);
        if self.search_highlight.as_str().is_empty() {
            let plain = display::sanitize_str(visible);
            ops.push(DrawOp::Print { text: plain });
            assert(draws(ops@) =~= seq![Draw::Print { text: plain@ }]);
            return ops;
        }
        let s = text::to_chars(visible);
        let query = text::to_chars(self.search_highlight.as_str());
        match_ops(&s, &query)
    }

    /// The text that row `row` of the screen showed last.
    fn shown_last(&self, row: usize) -> (s: &str)
        ensures
            s@ == self@.last_row(row as int),
    {
        proof {
            reveal_strlit("");
            assert(""@ =~= Seq::<char>::empty());
        }
        if row < self.last_rendered_rows.len() {
            self.last_rendered_rows[row].as_str()
        } else {
            ""
        }
    }

    /// The instructions that draw a reply.
    fn draw_reply(&self, width: u16, height: u16) -> (ops: Vec<DrawOp>)
        requires
            self.ai_output is Some,
        ensures
            draws(ops@) == self@.reply_draws((width, height)),
    {
        let mut ops: Vec<DrawOp> = Vec::new();
        let rows: u16 = height.saturating_sub(1);
        let scroll: usize = self.ai_scroll;
        let cols: usize = width as usize;
        ops.push(DrawOp::ClearAll);
        assert(draws(ops@) =~= seq![Draw::ClearAll]);
        if let Some(reply) = &self.ai_output {
            let mut i: u16 = 0;
            assert(draws(ops@) =~= seq![Draw::ClearAll] + self@.reply_rows_draws(0, width as int));
            while i < rows
                invariant
                    i <= rows,
                    rows == text_rows(height),
                    self.ai_output == Some(*reply),
                    scroll == self.ai_scroll,
                    cols == width,
                    draws(ops@) == seq![Draw::ClearAll] + self@.reply_rows_draws(
                        i as int,
                        width as int,
                    ),
                decreases rows - i,
            {
                let ghost before = draws(ops@);
                let ghost row = self@.reply_row_draws(i as int, width as int);
                let at: usize = i as usize;
                if scroll < reply.len() && at < reply.len() - scroll {
                    let line = display::truncate_to_width(reply[scroll + at].as_str(), cols);
                    ops.push(DrawOp::MoveTo { x: 0, y: i });
                    ops.push(DrawOp::Print { text: line });
                }
                assert(draws(ops@) =~= before + row);
                proof {
                    let f = |r: int| self@.reply_row_draws(r, width as int);
                    lemma_rows_step(f, i as int);
                    assert(before + row =~= seq![Draw::ClearAll] + (self@.reply_rows_draws(
                        i as int,
                        width as int,
                    ) + row));
                }
                i = i + 1;
            }
        }
        let ghost before = draws(ops@);
        if height > 0 {
            let line = fit("[AI VIEW] \u{2191}/\u{2193} scroll | Esc to exit", cols);
            ops.push(DrawOp::MoveTo { x: 0, y: height - 1 });
            ops.push(DrawOp::Reverse);
            ops.push(DrawOp::Print { text: line });
            ops.push(DrawOp::Reset);
            assert(draws(ops@) =~= before + seq![
                Draw::MoveTo { x: 0, y: (height - 1) as u16 },
                Draw::Reverse,
                Draw::Print { text: line@ },
                Draw::Reset,
            ]);
        }
        assert(draws(ops@) =~= self@.reply_draws((width, height)));
        ops
    }

    /// The instructions that bring the rows of text up to date, whose texts are `rows`.
    fn draw_rows(&self, rows: &Vec<String>, width: u16, height: u16, full: bool) -> (ops: Vec<
        DrawOp,
    >)
        requires
            rows@.len() >= text_rows(height),
            forall|i: int|
                0 <= i < text_rows(height) ==> (#[trigger] rows@[i])@ == self@.row_text(
                    i,
                    width as int,
                ),
            full == self@.draws_all((width, height)),
        ensures
            draws(ops@) == self@.rows_draws(text_rows(height), (width, height)),
    {
        let mut ops: Vec<DrawOp> = Vec::new();
        let count: u16 = height.saturating_sub(1);
        let ghost size = (width, height);
        let mut row: u16 = 0;
        assert(draws(ops@) =~= self@.rows_draws(0, size));
        while row < count
            invariant
                row <= count,
                count == text_rows(height),
                size == (width, height),
                rows@.len() >= text_rows(height),
                forall|i: int|
                    0 <= i < text_rows(height) ==> (#[trigger] rows@[i])@ == self@.row_text(
                        i,
                        width as int,
                    ),
                full == self@.draws_all(size),
                draws(ops@) == self@.rows_draws(row as int, size),
            decreases count - row,
        {
            let ghost before = draws(ops@);
            let r: usize = row as usize;
            let ghost more = self@.row_draws(r as int, size);
            let new_text = rows[r].as_str();
            let old_text = self.shown_last(r);
            if full || !text::same_text(new_text, old_text) {
                ops.push(DrawOp::MoveTo { x: 0, y: row });
                ops.push(DrawOp::ClearLine);
                assert(draws(ops@) =~= before + seq![
                    Draw::MoveTo { x: 0, y: row },
                    Draw::ClearLine,
                ]);
                let line = self.draw_visible_line(r, width as usize);
                extend(&mut ops, line);
            }
            assert(draws(ops@) =~= before + more);
            proof {
                let f = |i: int| self@.row_draws(i, size);
                lemma_rows_step(f, row as int);
            }
            row = row + 1;
        }
        ops
    }

    /// The instructions that bring the status row up to date, whose text is `line`.
    fn draw_status(&self, line: &String, width: u16, height: u16, full: bool, now: u64) -> (ops:
        Vec<DrawOp>)
        requires
            line@ == fitted(self@.status_line(now), width as int),
            full == self@.draws_all((width, height)),
        ensures
            draws(ops@) == self@.status_draws((width, height), now),
    {
        let mut ops: Vec<DrawOp> = Vec::new();
        let status_row: u16 = height.saturating_sub(1);
        if full || !text::same_text(line.as_str(), self.shown_last(status_row as usize)) {
            ops.push(DrawOp::MoveTo { x: 0, y: status_row });
            ops.push(DrawOp::Reverse);
            ops.push(DrawOp::ClearLine);
            ops.push(DrawOp::Print { text: line.clone() });
            ops.push(DrawOp::Reset);
        }
        assert(draws(ops@) =~= self@.status_draws((width, height), now));
        ops
    }

    /// The instruction that sets the cursor.
    fn draw_cursor(&self, width: u16, height: u16) -> (ops: Vec<DrawOp>)
        ensures
            draws(ops@) == self@.cursor_draws((width, height)),
    {
        let mut ops: Vec<DrawOp> = Vec::new();
        if height > 0 {
            let dx: usize = self.cursor_x.saturating_sub(self.offset_x);
            let last_col: u16 = width.saturating_sub(1);
            let x: u16 = if dx < last_col as usize {
                dx as u16
            } else {
                last_col
            };
            let dy: usize = self.cursor_y.saturating_sub(self.offset_y);
            let last_row: u16 = height.saturating_sub(1).saturating_sub(1);
            let y: u16 = if dy < last_row as usize {
                dy as u16
            } else {
                last_row
            };
            ops.push(DrawOp::MoveTo { x, y });
        }
        assert(draws(ops@) =~= self@.cursor_draws((width, height)));
        ops
    }

    /// Draws the document on a screen already scrolled.
    fn draw_document(&self, width: u16, height: u16, now: u64) -> (frame: Frame)
        ensures
            frame.size == (width, height),
            draws(frame.ops@) == self@.document_draws((width, height), now),
            rows_of(frame.rows) == Some(self@.shown_rows((width, height), now)),
    {
        let cols: usize = width as usize;
        let count: usize = height.saturating_sub(1) as usize;
        let mut rows = self.build_rows(cols, count, now);
        let ghost built = rows@;
        assert(lines::contents(built).len() == count + 1);
        assert forall|i: int| 0 <= i < text_rows(height) implies (#[trigger] rows@[i])@
            == self@.row_text(i, width as int) by {
            assert(lines::contents(built)[i] == built[i]@);
        }
        let full = self.force_full_redraw || self.last_size.0 != width || self.last_size.1 != height
            || self.last_rendered_rows.len() != rows.len();
        let mut ops = self.draw_rows(&rows, width, height, full);
        let status = self.current_status(now);
        let line = fit(status.as_str(), cols);
        extend(&mut ops, self.draw_status(&line, width, height, full, now));
        extend(&mut ops, self.draw_cursor(width, height));
        rows.truncate(count);
        rows.push(line);
        assert(lines::contents(rows@) =~= self@.shown_rows((width, height), now)) by {
            assert forall|i: int| 0 <= i < count implies lines::contents(rows@)[i]
                == #[trigger] self@.row_text(i, width as int) by {
                assert(rows@[i] == built[i]);
            }
        }
        Frame { ops, rows: Some(rows), size: (width, height) }
    }

    /// Scrolls the screen to the cursor, and draws the editor on a screen of `width`
    /// columns and `height` rows.
    pub fn render(&mut self, width: u16, height: u16, now: u64) -> (frame: Frame)
        requires
            old(self).wf(),
        ensures
            final(self).wf(),
            final(self)@ == old(self)@.positioned((width, height)),
            frame.size == (width, height),
            draws(frame.ops@) == (if old(self)@.ai_output is Some {
                old(self)@.reply_draws((width, height))
            } else {
                final(self)@.document_draws((width, height), now)
            }),
            rows_of(frame.rows) == (if old(self)@.ai_output is Some {
                None
            } else {
                Some(final(self)@.shown_rows((width, height), now))
            }),
    {
        if self.ai_output.is_some() {
            let ops = self.draw_reply(width, height);
            return Frame { ops, rows: None, size: (width, height) };
        }
        self.update_scroll(width as usize, height as usize);
        self.draw_document(width, height, now)
    }

    /// Keeps what a picture shows, once it is on the screen.
    pub fn finish_render(&mut self, frame: Frame)
        requires
            old(self).wf(),
        ensures
            final(self).wf(),
            final(self)@ == old(self)@.drawn(rows_of(frame.rows), frame.size),
    {
        if let Some(rows) = frame.rows {
            self.last_rendered_rows = rows;
            self.last_size = frame.size;
        }
        self.force_full_redraw = false;
        self.needs_redraw = false;
    }
}

/// One more row behind the first `n`.
pub proof fn lemma_rows_step(f: spec_fn(int) -> Seq<Draw>, n: int)
    requires
        n >= 0,
    ensures
        Seq::new((n + 1) as nat, f).flatten() == Seq::new(n as nat, f).flatten() + f(n),
{
    let rows = Seq::new(n as nat, f);
    assert(Seq::new((n + 1) as nat, f) =~= rows.push(f(n)));
    rows.lemma_flatten_push(f(n));
}

} // verus!
