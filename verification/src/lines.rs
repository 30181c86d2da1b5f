//! Files as lists of lines: taking a text apart at its line ends, and joining lines.

use crate::text;
use vstd::prelude::*;

verus! {

/// The contents of a list of strings.
pub open spec fn contents(v: Seq<String>) -> Seq<Seq<char>> {
    v.map_values(|s: String| s@)
}

/// Where the first line of `s` ends: at the first line feed, or at the end of `s`.
pub open spec fn line_end(s: Seq<char>) -> int
    decreases s.len(),
{
    if s.len() == 0 || s[0] == '\n' {
        0
    } else {
        1 + line_end(s.drop_first())
    }
}

/// A line without the carriage return that ends it, if one does.
pub open spec fn chomped(line: Seq<char>) -> Seq<char> {
    if line.len() > 0 && line.last() == '\r' {
        line.drop_last()
    } else {
        line
    }
}

/// The lines of `s`. A line ends with a line feed, which may follow a carriage
/// return; the last line need not end with one.
pub open spec fn split(s: Seq<char>) -> Seq<Seq<char>>
    decreases s.len(),
    via split_decreases
{
    if s.len() == 0 {
        Seq::empty()
    } else if line_end(s) == s.len() {
        seq![s]
    } else {
        seq![chomped(s.take(line_end(s)))] + split(s.skip(line_end(s) + 1))
    }
}

#[via_fn]
proof fn split_decreases(s: Seq<char>) {
    lemma_line_end(s);
}

/// The lines joined by line feeds.
pub open spec fn joined(lines: Seq<Seq<char>>) -> Seq<char>
    decreases lines.len(),
{
    if lines.len() == 0 {
        Seq::empty()
    } else if lines.len() == 1 {
        lines[0]
    } else {
        lines[0].push('\n') + joined(lines.drop_first())
    }
}

/// What `line_end` is: no line feed before it, and a line feed or the end there.
pub proof fn lemma_line_end(s: Seq<char>)
    ensures
        0 <= line_end(s) <= s.len(),
        line_end(s) < s.len() ==> s[line_end(s)] == '\n',
        forall|i: int| 0 <= i < line_end(s) ==> #[trigger] s[i] != '\n',
    decreases s.len(),
{
    if s.len() > 0 && s[0] != '\n' {
        lemma_line_end(s.drop_first());
        assert forall|i: int| 0 <= i < line_end(s) implies #[trigger] s[i] != '\n' by {
            if i > 0 {
                assert(s.drop_first()[i - 1] == s[i]);
            }
        }
    }
}

/// The place of the first line feed is the only one with that property.
pub proof fn lemma_line_end_is(s: Seq<char>, k: int)
    requires
        0 <= k <= s.len(),
        k < s.len() ==> s[k] == '\n',
        forall|i: int| 0 <= i < k ==> #[trigger] s[i] != '\n',
    ensures
        line_end(s) == k,
{
    lemma_line_end(s);
    let e = line_end(s);
    if e < k {
        assert(s[e] != '\n');
    } else if k < e {
        assert(s[k] != '\n');
    }
}

/// The lines of a text.
pub fn split_lines(s: &str) -> (out: Vec<String>)
    ensures
        contents(out@) == split(s@),
{
    let v = text::to_chars(s);
    let mut out: Vec<String> = Vec::new();
    let mut start: usize = 0;
    assert(s@.skip(0) =~= s@);
    assert(contents(out@) =~= Seq::<Seq<char>>::empty());
    while start < v.len()
        invariant
            v@ == s@,
            start <= v@.len(),
            split(s@) == contents(out@) + split(s@.skip(start as int)),
        decreases v@.len() - start,
    {
        let ghost rest = s@.skip(start as int);
        let ghost before = out@;
        let mut e: usize = start;
        while e < v.len() && v[e] != '\n'
            invariant
                v@ == s@,
                start <= e <= v@.len(),
                forall|i: int| start <= i < e ==> #[trigger] v@[i] != '\n',
            decreases v@.len() - e,
        {
            e = e + 1;
        }
        proof {
            assert forall|i: int| 0 <= i < e - start implies #[trigger] rest[i] != '\n' by {
                assert(rest[i] == v@[start + i]);
            }
            lemma_line_end_is(rest, e - start);
        }
        if e == v.len() {
            let line = text::from_chars(&v, start, e);
            assert(line@ =~= rest);
            out.push(line);
            start = e;
            assert(contents(out@) =~= contents(before).push(rest));
            assert(split(s@) =~= contents(out@) + split(s@.skip(start as int)));
        } else {
            assert(s@.subrange(start as int, e as int) =~= rest.take(e - start));
            let line = if e > start && v[e - 1] == '\r' {
                let l = text::from_chars(&v, start, e - 1);
                assert(l@ =~= rest.take(e - start).drop_last());
                l
            } else {
                text::from_chars(&v, start, e)
            };
            assert(line@ == chomped(rest.take(e - start)));
            out.push(line);
            start = e + 1;
            assert(contents(out@) =~= contents(before).push(line@));
            assert(rest.skip(line_end(rest) + 1) =~= s@.skip(start as int));
            assert(split(s@) =~= contents(out@) + split(s@.skip(start as int)));
        }
    }
    assert(s@.skip(start as int) =~= Seq::<char>::empty());
    assert(split(s@) =~= contents(out@));
    out
}

/// The part of a joined text that is still to come once `i` lines are written.
spec fn still_to_come(lines: Seq<Seq<char>>, i: int) -> Seq<char> {
    if i >= lines.len() {
        Seq::empty()
    } else if i == 0 {
        joined(lines)
    } else {
        seq!['\n'] + joined(lines.skip(i))
    }
}

/// The lines joined by line feeds.
pub fn join_lines(lines: &Vec<String>) -> (out: String)
    ensures
        out@ == joined(contents(lines@)),
{
    let mut out = String::new();
    let mut i: usize = 0;
    let ghost all = contents(lines@);
    assert(joined(all) =~= out@ + still_to_come(all, 0));
    while i < lines.len()
        invariant
            all == contents(lines@),
            i <= lines@.len(),
            joined(all) == out@ + still_to_come(all, i as int),
        decreases lines@.len() - i,
    {
        let ghost before = out@;
        if i > 0 {
            out.push('\n');
        }
        out.append(lines[i].as_str());
        proof {
            let tail = all.skip(i as int);
            assert(i == 0 ==> tail =~= all);
            assert(tail.drop_first() =~= all.skip(i + 1));
            assert(lines@[i as int]@ == tail[0]);
            assert(still_to_come(all, i as int) =~= (if i > 0 {
                seq!['\n']
            } else {
                Seq::empty()
            }) + joined(tail));
            assert(joined(tail) =~= tail[0] + still_to_come(all, i + 1));
            assert(before + still_to_come(all, i as int) =~= out@ + still_to_come(all, i + 1));
        }
        i = i + 1;
    }
    out
}

} // verus!
