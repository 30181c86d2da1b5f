//! What a file holds of a document, and a document of a file.

use crate::groq;
use crate::language::Language;
use crate::lines;
use crate::state::{Document, EditorState, InputMode};
use vstd::prelude::*;

verus! {

// ---------------------------------------------------------------------------
// Writing
// ---------------------------------------------------------------------------

/// Where line `i` starts in the text of all lines: behind the lines before it and one
/// line feed for each of them.
pub open spec fn line_place(lines: Seq<Seq<char>>, i: int) -> int
    decreases i,
{
    if i <= 0 {
        0
    } else {
        line_place(lines, i - 1) + lines[i - 1].len() + 1
    }
}

/// One line is written as it is, and no lines as nothing.
pub proof fn law_one_line_joined(line: Seq<char>)
    ensures
        lines::joined(seq![line]) == line,
        lines::joined(Seq::<Seq<char>>::empty()) == Seq::<char>::empty(),
{
}

/// Lines and more lines are written one behind the other, with a line feed in between.
pub proof fn law_joined_in_parts(a: Seq<Seq<char>>, b: Seq<Seq<char>>)
    requires
        a.len() > 0,
        b.len() > 0,
    ensures
        lines::joined(a + b) == lines::joined(a).push('\n') + lines::joined(b),
    decreases a.len(),
{
    let all = a + b;
    if a.len() == 1 {
        assert(all.drop_first() =~= b);
    } else {
        law_joined_in_parts(a.drop_first(), b);
        assert(all.drop_first() =~= a.drop_first() + b);
    }
    assert(lines::joined(all) =~= lines::joined(a).push('\n') + lines::joined(b));
}

/// Every line stands in the text that is written, in its place and whole, with a line
/// feed behind it unless it is the last, with which the text ends.
pub proof fn law_joined_places(lines: Seq<Seq<char>>, i: int)
    requires
        0 <= i < lines.len(),
    ensures
        ({
            let t = lines::joined(lines);
            let k = line_place(lines, i);
            &&& 0 <= k
            &&& k + lines[i].len() <= t.len()
            &&& t.subrange(k, k + lines[i].len()) == lines[i]
            &&& i + 1 < lines.len() ==> k + lines[i].len() < t.len() && t[k + lines[i].len()]
                == '\n'
            &&& i + 1 == lines.len() ==> t.len() == k + lines[i].len()
        }),
    decreases lines.len(),
{
    let t = lines::joined(lines);
    let last = lines.len() - 1;
    if lines.len() == 1 {
        assert(t.subrange(0, t.len() as int) =~= lines[0]);
    } else {
        let head = lines.drop_last();
        law_joined_in_parts(head, seq![lines.last()]);
        assert(head + seq![lines.last()] =~= lines);
        law_one_line_joined(lines.last());
        let h = lines::joined(head);
        law_joined_places(head, last - 1);
        lemma_place_of_head(lines, last - 1);
        assert(line_place(lines, last) == h.len() + 1);
        if i < last {
            law_joined_places(head, i);
            lemma_place_of_head(lines, i);
            let k = line_place(lines, i);
            assert(t.subrange(k, k + lines[i].len()) =~= h.subrange(k, k + lines[i].len()));
        } else {
            let k = line_place(lines, last);
            assert(t.subrange(k, k + lines[last].len()) =~= lines[last]);
        }
    }
}

proof fn lemma_place_of_head(lines: Seq<Seq<char>>, i: int)
    requires
        0 <= i < lines.len(),
    ensures
        line_place(lines.drop_last(), i) == line_place(lines, i),
        line_place(lines, i) >= 0,
    decreases i,
{
    if i > 0 {
        lemma_place_of_head(lines, i - 1);
    }
}

// ---------------------------------------------------------------------------
// Reading
// ---------------------------------------------------------------------------

/// A text without line feeds.
pub open spec fn one_line(s: Seq<char>) -> bool {
    forall|i: int| 0 <= i < s.len() ==> #[trigger] s[i] != '\n'
}

/// A text up to its first line feed is its first line, but for a carriage return before
/// that line feed; what follows is taken apart on its own. A text without a line feed is
/// one line, and an empty one none.
pub proof fn law_lines_of_text(line: Seq<char>, rest: Seq<char>)
    requires
        one_line(line),
    ensures
        line.len() == 0 || line.last() != '\r' ==> lines::split(line.push('\n') + rest) == seq![line]
            + lines::split(rest),
        line.len() > 0 && line.last() == '\r' ==> lines::split(line.push('\n') + rest) == seq![
            line.drop_last(),
        ] + lines::split(rest),
        line.len() > 0 ==> lines::split(line) == seq![line],
        lines::split(Seq::<char>::empty()).len() == 0,
{
    let s = line.push('\n') + rest;
    let n = line.len() as int;
    assert forall|i: int| 0 <= i < n implies #[trigger] s[i] != '\n' by {
        assert(s[i] == line[i]);
    }
    lines::lemma_line_end_is(s, n);
    assert(s.take(n) =~= line);
    assert(s.skip(n + 1) =~= rest);
    lines::lemma_line_end_is(line, n);
}

/// The lines of a document on a file: what stands before the first line feed of the text
/// is its first line, but for a carriage return before that line feed, and the others are
/// those of the rest. A line feed at the end starts no line; a text without one is one
/// line, and so are the empty text and a file that cannot be read.
pub proof fn law_opened_lines(
    filename: Seq<char>,
    language: Language,
    key_file: Option<Seq<char>>,
    line: Seq<char>,
    rest: Seq<char>,
)
    requires
        one_line(line),
    ensures
        ({
            let first = if line.len() > 0 && line.last() == '\r' {
                line.drop_last()
            } else {
                line
            };
            let text = line.push('\n') + rest;
            &&& rest.len() > 0 ==> EditorState::opened(
                filename,
                language,
                Some(text),
                key_file,
            ).doc.lines == seq![first] + EditorState::opened(
                filename,
                language,
                Some(rest),
                key_file,
            ).doc.lines
            &&& EditorState::opened(
                filename,
                language,
                Some(line.push('\n')),
                key_file,
            ).doc.lines == seq![first]
            &&& EditorState::opened(filename, language, Some(line), key_file).doc.lines == seq![line]
            &&& EditorState::opened(filename, language, None, key_file).doc.lines == seq![
                Seq::<char>::empty(),
            ]
        }),
{
    law_lines_of_text(line, rest);
    law_lines_of_text(line, Seq::empty());
    assert(line.push('\n') + Seq::<char>::empty() =~= line.push('\n'));
    if rest.len() > 0 {
        lemma_some_line(rest);
    }
    if line.len() == 0 {
        assert(line =~= Seq::<char>::empty());
    }
}

proof fn lemma_some_line(s: Seq<char>)
    requires
        s.len() > 0,
    ensures
        lines::split(s).len() > 0,
{
}

/// The text of lines with a line feed behind each.
pub open spec fn ended(lines: Seq<Seq<char>>) -> Seq<char>
    decreases lines.len(),
{
    if lines.len() == 0 {
        Seq::empty()
    } else {
        lines[0].push('\n') + ended(lines.drop_first())
    }
}

/// A file of lines that each end in a line feed opens as exactly those lines.
pub proof fn law_ended_lines_open(
    filename: Seq<char>,
    language: Language,
    key_file: Option<Seq<char>>,
    lines: Seq<Seq<char>>,
)
    requires
        lines.len() > 0,
        forall|i: int|
            0 <= i < lines.len() ==> one_line(#[trigger] lines[i]) && (lines[i].len() > 0
                ==> lines[i].last() != '\r'),
    ensures
        EditorState::opened(filename, language, Some(ended(lines)), key_file).doc.lines == lines,
    decreases lines.len(),
{
    let rest = lines.drop_first();
    let tail = ended(rest);
    assert(one_line(lines[0]));
    law_opened_lines(filename, language, key_file, lines[0], tail);
    if rest.len() > 0 {
        assert forall|i: int| 0 <= i < rest.len() implies one_line(#[trigger] rest[i]) && (
        rest[i].len() > 0 ==> rest[i].last() != '\r') by {
            assert(rest[i] == lines[i + 1]);
        }
        law_ended_lines_open(filename, language, key_file, rest);
        assert(seq![lines[0]] + rest =~= lines);
    } else {
        assert(lines[0].push('\n') + tail =~= lines[0].push('\n'));
        assert(lines =~= seq![lines[0]]);
    }
}

/// The number of line feeds in a text.
pub open spec fn line_feeds(s: Seq<char>) -> nat
    decreases s.len(),
{
    if s.len() == 0 {
        0
    } else {
        line_feeds(s.drop_first()) + if s[0] == '\n' {
            1nat
        } else {
            0nat
        }
    }
}

/// A document has as many lines as its file has line feeds, one more if the text behind
/// the last of them is not empty, and one for an empty file.
pub proof fn law_opened_line_count(
    filename: Seq<char>,
    language: Language,
    key_file: Option<Seq<char>>,
    text: Seq<char>,
)
    ensures
        EditorState::opened(filename, language, Some(text), key_file).doc.lines.len()
            == line_feeds(text) + if text.len() == 0 || text.last() != '\n' {
            1nat
        } else {
            0nat
        },
    decreases text.len(),
{
    lines::lemma_line_end(text);
    let n = lines::line_end(text);
    let line = text.take(n);
    assert(one_line(line));
    lemma_no_line_feeds(line);
    if n == text.len() {
        assert(line =~= text);
        law_opened_lines(filename, language, key_file, line, Seq::empty());
    } else {
        let rest = text.skip(n + 1);
        assert(text =~= line.push('\n') + rest);
        law_opened_lines(filename, language, key_file, line, rest);
        lemma_line_feeds_add(line.push('\n'), rest);
        lemma_line_feeds_add(line, seq!['\n']);
        assert(line.push('\n') =~= line + seq!['\n']);
        assert(seq!['\n'].drop_first() =~= Seq::<char>::empty());
        reveal_with_fuel(line_feeds, 2);
        assert(line_feeds(seq!['\n']) == 1);
        if rest.len() > 0 {
            law_opened_line_count(filename, language, key_file, rest);
            assert(rest.last() == text.last());
        } else {
            assert(text =~= line.push('\n'));
        }
    }
}

proof fn lemma_no_line_feeds(s: Seq<char>)
    requires
        one_line(s),
    ensures
        line_feeds(s) == 0,
    decreases s.len(),
{
    if s.len() > 0 {
        let r = s.drop_first();
        assert forall|i: int| 0 <= i < r.len() implies #[trigger] r[i] != '\n' by {
            assert(r[i] == s[i + 1]);
        }
        lemma_no_line_feeds(r);
    }
}

proof fn lemma_line_feeds_add(a: Seq<char>, b: Seq<char>)
    ensures
        line_feeds(a + b) == line_feeds(a) + line_feeds(b),
    decreases a.len(),
{
    if a.len() == 0 {
        assert(a + b =~= b);
    } else {
        assert((a + b).drop_first() =~= a.drop_first() + b);
        lemma_line_feeds_add(a.drop_first(), b);
    }
}

/// An editor just opened stands at the start of its document, unchanged and without a
/// history, takes text, shows no dialog, message or reply, and is to be drawn as a whole.
pub proof fn law_opened_editor(
    filename: Seq<char>,
    language: Language,
    file: Option<Seq<char>>,
    key_file: Option<Seq<char>>,
)
    ensures
        ({
            let e = EditorState::opened(filename, language, file, key_file);
            e == (EditorState {
                doc: Document {
                    language,
                    lines: e.doc.lines,
                    cursor_x: 0,
                    cursor_y: 0,
                    offset_x: 0,
                    offset_y: 0,
                    dirty: false,
                    history: Seq::empty(),
                },
                filename,
                search_input: Seq::empty(),
                search_highlight: Seq::empty(),
                in_search: false,
                confirm_exit: false,
                mode: InputMode::Insert,
                command_buffer: Seq::empty(),
                groq_api_key: groq::stored_key(key_file),
                groq_key_buffer: Seq::empty(),
                pending_ai_request: None,
                temp_status: None,
                needs_redraw: true,
                force_full_redraw: true,
                last_rendered_rows: Seq::empty(),
                last_size: (0, 0),
                ai_output: None,
                ai_scroll: 0,
            })
        }),
{
}

} // verus!
