//! Text on its way to the screen: widths and control characters.

use crate::text;
use vstd::prelude::*;

verus! {

/// The first `width` characters of `s`.
pub open spec fn truncated(s: Seq<char>, width: int) -> Seq<char> {
    s.take(text::min(width, s.len() as int))
}

/// `s` filled up with blanks to `width` characters.
pub open spec fn padded(s: Seq<char>, width: int) -> Seq<char> {
    s + blanks(width - s.len())
}

/// `n` blanks; none if `n` is negative.
pub open spec fn blanks(n: int) -> Seq<char> {
    Seq::new(text::max(n, 0) as nat, |i: int| ' ')
}

/// How one character is shown: the escape character as its picture, tab and line
/// ends as they are, any other control character not at all.
pub open spec fn shown(c: char) -> Seq<char> {
    if c == '\x1b' {
        seq!['\u{241b}']
    } else if text::control(c) && c != '\t' && c != '\n' && c != '\r' {
        Seq::empty()
    } else {
        seq![c]
    }
}

/// A text as it is shown.
pub open spec fn sanitized(s: Seq<char>) -> Seq<char> {
    s.flat_map(|c: char| shown(c))
}

/// The part of `line` that a window `width` characters wide shows, `offset`
/// characters in.
pub open spec fn window(line: Seq<char>, offset: int, width: int) -> Seq<char> {
    line.subrange(
        text::min(offset, line.len() as int),
        text::min(offset + width, line.len() as int),
    )
}

/// The first `width` characters of `s`.
pub fn truncate_to_width(s: &str, width: usize) -> (r: String)
    ensures
        r@ == truncated(s@, width as int),
{
    let n: usize = text::char_count(s);
    let end: usize = if width < n {
        width
    } else {
        n
    };
    assert(s@.subrange(0, end as int) =~= s@.take(end as int));
    s.substring_char(0, end).to_string()
}

/// `s` filled up with blanks to `width` characters.
pub fn pad_to_width(s: &str, width: usize) -> (r: String)
    ensures
        r@ == padded(s@, width as int),
{
    let mut out = s.to_string();
    let len: usize = text::char_count(s);
    if len < width {
        let fill = text::repeat_char(' ', width - len);
        assert(fill@ =~= blanks(width - len));
        out.append(fill.as_str());
    }
    assert(out@ =~= padded(s@, width as int));
    out
}

/// `s` as it is shown, without what a terminal would take as a command.
pub fn sanitize_str(s: &str) -> (r: String)
    ensures
        r@ == sanitized(s@),
{
    let v = text::to_chars(s);
    let ghost f = |c: char| shown(c);
    let mut out = String::new();
    let mut i: usize = 0;
    assert(s@.take(0).flat_map(f) =~= Seq::<char>::empty());
    while i < v.len()
        invariant
            v@ == s@,
            i <= v@.len(),
            f == (|c: char| shown(c)),
            out@ == s@.take(i as int).flat_map(f),
        decreases v@.len() - i,
    {
        let c = v[i];
        proof {
            s@.lemma_flat_map_take_append(f, i as int);
        }
        if c == '\x1b' {
            out.push('\u{241b}');
        } else if text::is_control(c) && c != '\t' && c != '\n' && c != '\r' {
        } else {
            out.push(c);
        }
        assert(out@ =~= s@.take(i as int).flat_map(f) + shown(c));
        i = i + 1;
    }
    assert(s@.take(i as int) =~= s@);
    out
}

/// The part of `line` that a window shows.
pub fn window_of<'a>(line: &'a str, offset: usize, width: usize) -> (r: &'a str)
    ensures
        r@ == window(line@, offset as int, width as int),
{
    let n: usize = text::char_count(line);
    let from: usize = if offset < n {
        offset
    } else {
        n
    };
    let to: usize = if width < n - from {
        from + width
    } else {
        n
    };
    line.substring_char(from, to)
}

} // verus!
