//! What trimming, searching, fitting and numbers come to, in terms of the characters of a
//! text.

use crate::display;
use crate::language;
use crate::language::Language;
use crate::number;
use crate::text;
use vstd::prelude::*;

verus! {

// ---------------------------------------------------------------------------
// Trimming
// ---------------------------------------------------------------------------

/// A text of white space only.
pub open spec fn blank(s: Seq<char>) -> bool {
    forall|i: int| 0 <= i < s.len() ==> text::whitespace(#[trigger] s[i])
}

/// A text without white space at either end.
pub open spec fn tight(s: Seq<char>) -> bool {
    s.len() > 0 ==> !text::whitespace(s[0]) && !text::whitespace(s.last())
}

/// Trimming at the start takes white space away, all of it, and nothing else.
pub proof fn law_trimmed_start_parts(s: Seq<char>)
    ensures
        text::trimmed_start(s).len() <= s.len(),
        text::trimmed_start(s) == s.skip(s.len() - text::trimmed_start(s).len()),
        forall|i: int|
            0 <= i < s.len() - text::trimmed_start(s).len() ==> text::whitespace(#[trigger] s[i]),
        text::trimmed_start(s).len() > 0 ==> !text::whitespace(text::trimmed_start(s)[0]),
    decreases s.len(),
{
    let t = text::trimmed_start(s);
    if s.len() > 0 && text::whitespace(s[0]) {
        let r = s.drop_first();
        law_trimmed_start_parts(r);
        let n = s.len() - t.len();
        assert(s.skip(n) =~= r.skip(n - 1));
        assert forall|i: int| 0 <= i < n implies text::whitespace(#[trigger] s[i]) by {
            if i > 0 {
                assert(r[i - 1] == s[i]);
            }
        }
    } else {
        assert(s.skip(0) =~= s);
    }
}

/// Trimming at the end takes white space away, all of it, and nothing else.
pub proof fn law_trimmed_end_parts(s: Seq<char>)
    ensures
        text::trimmed_end(s).len() <= s.len(),
        text::trimmed_end(s) == s.take(text::trimmed_end(s).len() as int),
        forall|i: int|
            text::trimmed_end(s).len() <= i < s.len() ==> text::whitespace(#[trigger] s[i]),
        text::trimmed_end(s).len() > 0 ==> !text::whitespace(text::trimmed_end(s).last()),
    decreases s.len(),
{
    let t = text::trimmed_end(s);
    if s.len() > 0 && text::whitespace(s.last()) {
        let r = s.drop_last();
        law_trimmed_end_parts(r);
        assert(s.take(t.len() as int) =~= r.take(t.len() as int));
        assert forall|i: int| t.len() <= i < s.len() implies text::whitespace(#[trigger] s[i]) by {
            if i < r.len() {
                assert(r[i] == s[i]);
            }
        }
    } else {
        assert(s.take(s.len() as int) =~= s);
    }
}

/// Trimming takes the white space around a text away, and only that.
pub proof fn law_trimmed_between(a: Seq<char>, t: Seq<char>, b: Seq<char>)
    requires
        blank(a),
        tight(t),
        blank(b),
    ensures
        text::trimmed(a + t + b) == t,
{
    let s = a + t + b;
    let u = text::trimmed_start(s);
    law_trimmed_start_parts(s);
    let n = s.len() - u.len();
    if n < a.len() {
        assert(s[n] == a[n]);
        assert(u[0] == s[n]);
    }
    if t.len() > 0 {
        if n > a.len() {
            assert(s[a.len() as int] == t[0]);
        }
        assert(u =~= t + b);
    } else {
        if n < s.len() {
            assert(s[n] == b[n - a.len()]);
            assert(u[0] == s[n]);
        }
        assert(u.len() == 0);
    }
    let v = text::trimmed_end(u);
    law_trimmed_end_parts(u);
    let m = v.len() as int;
    if t.len() > 0 {
        if m < t.len() {
            assert(u[t.len() - 1] == t.last());
        } else if m > t.len() {
            assert(v.last() == u[m - 1]);
            assert(u[m - 1] == b[m - 1 - t.len()]);
        }
    }
    assert(v =~= t);
}

/// Nothing is left of a text by trimming exactly if it is white space only.
pub proof fn lemma_blank_trimmed(s: Seq<char>)
    ensures
        blank(s) <==> text::trimmed(s).len() == 0,
{
    let u = text::trimmed_start(s);
    law_trimmed_start_parts(s);
    law_trimmed_end_parts(u);
    let n = s.len() - u.len();
    if blank(s) && u.len() > 0 {
        assert(u[0] == s[n]);
    }
    if text::trimmed(s).len() == 0 && u.len() > 0 {
        assert(text::whitespace(u[0]));
    }
}

// ---------------------------------------------------------------------------
// Searching
// ---------------------------------------------------------------------------

/// `q` stands in `s` with `k` characters before it.
pub open spec fn stands(s: Seq<char>, q: Seq<char>, k: int) -> bool {
    0 <= k && k + q.len() <= s.len() && forall|i: int|
        0 <= i < q.len() ==> #[trigger] q[i] == s[k + i]
}

proof fn lemma_stands(s: Seq<char>, q: Seq<char>)
    ensures
        forall|k: int| #[trigger] stands(s, q, k) == text::occurs_at(s, q, k),
{
    assert forall|k: int| #[trigger] stands(s, q, k) == text::occurs_at(s, q, k) by {
        if 0 <= k && k + q.len() <= s.len() {
            let p = s.subrange(k, k + q.len());
            if stands(s, q, k) {
                assert(p =~= q);
            }
            if p == q {
                assert forall|i: int| 0 <= i < q.len() implies #[trigger] q[i] == s[k + i] by {
                    assert(p[i] == s[k + i]);
                }
            }
        }
    }
}

/// A search finds the first place at which the text stands, character by character, and
/// finds none only if there is none.
pub proof fn law_find_is_first(s: Seq<char>, q: Seq<char>, from: int)
    requires
        0 <= from,
    ensures
        text::find_from(s, q, from) matches Some(k) ==> from <= k && stands(s, q, k),
        text::find_from(s, q, from) matches Some(k) ==> forall|j: int|
            from <= j < k ==> !#[trigger] stands(s, q, j),
        text::find_from(s, q, from) is None ==> forall|j: int|
            from <= j ==> !#[trigger] stands(s, q, j),
{
    lemma_stands(s, q);
    text::lemma_find_from(s, q, from);
}

/// What a text starts with, character by character.
pub proof fn law_prefix(s: Seq<char>, p: Seq<char>)
    ensures
        text::has_prefix(s, p) == stands(s, p, 0),
{
    if p.len() <= s.len() {
        if stands(s, p, 0) {
            assert(s.take(p.len() as int) =~= p);
        }
        if s.take(p.len() as int) == p {
            assert forall|i: int| 0 <= i < p.len() implies #[trigger] p[i] == s[0 + i] by {
                assert(s.take(p.len() as int)[i] == s[i]);
            }
        }
    }
}

/// A byte offset is the number of bytes of what stands before it, from nothing for the
/// start to all of them for the end.
pub proof fn law_byte_offset(s: Seq<char>, k: int)
    requires
        0 <= k <= s.len(),
    ensures
        text::byte_offset(s, k) == vstd::utf8::encode_utf8(s.take(k)).len(),
        text::byte_offset(s, 0) == 0,
        text::byte_offset(s, s.len() as int) == vstd::utf8::encode_utf8(s).len(),
{
    assert(s.take(s.len() as int) =~= s);
    assert(s.take(0) =~= Seq::<char>::empty());
    reveal_with_fuel(vstd::utf8::encode_utf8, 1);
}

// ---------------------------------------------------------------------------
// Fitting and showing
// ---------------------------------------------------------------------------

/// Cutting keeps the first characters, as many as fit.
pub proof fn law_truncated(s: Seq<char>, width: int)
    requires
        0 <= width,
    ensures
        width <= s.len() ==> display::truncated(s, width) == s.take(width),
        width >= s.len() ==> display::truncated(s, width) == s,
{
    if width >= s.len() {
        assert(s.take(s.len() as int) =~= s);
    }
}

/// Filling puts blanks behind a text, as many as are missing, and never cuts.
pub proof fn law_padded(s: Seq<char>, width: int)
    ensures
        width <= s.len() ==> display::padded(s, width) == s,
        width >= s.len() ==> display::padded(s, width).len() == width,
        display::padded(s, width).take(s.len() as int) == s,
        forall|i: int|
            s.len() <= i < display::padded(s, width).len() ==> #[trigger] display::padded(
                s,
                width,
            )[i] == ' ',
{
    assert(display::padded(s, width).take(s.len() as int) =~= s);
    if width <= s.len() {
        assert(display::padded(s, width) =~= s);
    }
}

/// A window shows the characters of the line from its offset on, as many as fit in and
/// as the line has.
pub proof fn law_window(line: Seq<char>, offset: int, width: int)
    requires
        0 <= offset,
        0 <= width,
    ensures
        offset + width <= line.len() ==> display::window(line, offset, width) == line.skip(
            offset,
        ).take(width),
        offset <= line.len() <= offset + width ==> display::window(line, offset, width)
            == line.skip(offset),
        line.len() <= offset ==> display::window(line, offset, width).len() == 0,
{
    if offset + width <= line.len() {
        assert(display::window(line, offset, width) =~= line.skip(offset).take(width));
    } else if offset <= line.len() {
        assert(display::window(line, offset, width) =~= line.skip(offset));
    }
}

/// How one character is shown: the escape character by its picture, tab and line ends as
/// they are, other control characters not at all, and every other character as it is.
/// Together with `law_sanitize_concat` this tells how every text is shown.
pub proof fn law_shown_character(c: char)
    ensures
        display::sanitized(Seq::<char>::empty()) == Seq::<char>::empty(),
        c == '\u{1b}' ==> display::sanitized(seq![c]) == seq!['\u{241b}'],
        c == '\t' || c == '\n' || c == '\r' ==> display::sanitized(seq![c]) == seq![c],
        text::control(c) && c != '\u{1b}' && c != '\t' && c != '\n' && c != '\r'
            ==> display::sanitized(seq![c]) == Seq::<char>::empty(),
        !text::control(c) ==> display::sanitized(seq![c]) == seq![c],
{
    let f = |x: char| display::shown(x);
    let s = seq![c];
    assert(display::sanitized(Seq::<char>::empty()) =~= Seq::<char>::empty());
    assert(s.map_values(f) =~= seq![display::shown(c)]);
    Seq::<Seq<char>>::empty().lemma_flatten_push(display::shown(c));
    assert(Seq::<Seq<char>>::empty().push(display::shown(c)) =~= seq![display::shown(c)]);
    assert(display::sanitized(s) =~= display::shown(c));
}

// ---------------------------------------------------------------------------
// Numbers
// ---------------------------------------------------------------------------

/// A number is written digit by digit, the last one behind the others.
pub proof fn law_decimal_digits(high: nat, low: nat)
    requires
        low < 10,
    ensures
        number::decimal(low) == seq![(48 + low) as char],
        high > 0 ==> number::decimal(10 * high + low) == number::decimal(high).push(
            (48 + low) as char,
        ),
{
    let n = 10 * high + low;
    assert(n / 10 == high && n % 10 == low);
}

/// A text of one or more decimal digits.
pub open spec fn digits(s: Seq<char>) -> bool {
    s.len() > 0 && forall|i: int|
        0 <= i < s.len() ==> 48 <= (#[trigger] s[i]) as u32 && s[i] as u32 <= 57
}

/// A digit is read as its value, and one more digit behind a number makes it ten times
/// as large and adds its value, as long as the machine can hold that.
pub proof fn law_digits_are_read(s: Seq<char>, c: char)
    requires
        s.len() > 0 ==> digits(s),
        48 <= c as u32 <= 57,
    ensures
        number::number_in(seq![c]) == Some((c as u32 - 48) as nat),
        s.len() > 0 ==> (number::number_in(s) matches Some(n) ==> number::number_in(s.push(c))
            == (if 10 * n + (c as u32 - 48) <= usize::MAX {
            Some((10 * n + (c as u32 - 48)) as nat)
        } else {
            None
        })),
        s.len() > 0 && number::number_in(s) is None ==> number::number_in(s.push(c)) is None,
{
    reveal_with_fuel(number::digits_value, 2);
    let one = seq![c];
    assert(one.drop_last() =~= Seq::<char>::empty());
    assert(one[0] == c && one.last() == c);
    assert(s.push(c).drop_last() =~= s);
    if s.len() > 0 {
        assert(s[0] as u32 >= 48);
        assert(s.push(c)[0] == s[0]);
    }
}

/// A plus sign before the digits changes nothing; no digits, and any other character,
/// make no number.
pub proof fn law_what_is_no_number(s: Seq<char>)
    ensures
        digits(s) ==> number::number_in(seq!['+'] + s) == number::number_in(s),
        number::number_in(Seq::<char>::empty()) is None,
        number::number_in(seq!['+']) is None,
        !digits(s) && !(s.len() > 1 && s[0] == '+' && digits(s.skip(1))) ==> number::number_in(
            s,
        ) is None,
{
    let p = seq!['+'] + s;
    assert(p.drop_first() =~= s);
    assert(p[0] == '+');
    assert(seq!['+'].drop_first() =~= Seq::<char>::empty());
    if digits(s) {
        assert(s[0] as u32 >= 48);
    } else if s.len() > 0 {
        if s[0] == '+' {
            assert(s.skip(1) =~= s.drop_first());
            if s.len() > 1 && !digits(s.skip(1)) {
                lemma_no_digits(s.drop_first());
            }
        } else {
            lemma_no_digits(s);
        }
    }
}

proof fn lemma_no_digits(s: Seq<char>)
    requires
        s.len() > 0,
        !digits(s),
    ensures
        number::digits_value(s) is None,
    decreases s.len(),
{
    let t = s.drop_last();
    if number::digit_value(s.last()) is Some {
        let i = choose|i: int|
            0 <= i < s.len() && !(48 <= (#[trigger] s[i]) as u32 && s[i] as u32 <= 57);
        assert(t[i] == s[i]);
        lemma_no_digits(t);
    }
}

/// A text that starts with neither a digit nor a plus sign is no number.
pub proof fn lemma_word_is_no_number(s: Seq<char>)
    requires
        s.len() > 0,
        s[0] != '+',
        !(48 <= s[0] as u32 <= 57),
    ensures
        number::number_in(s) is None,
{
    law_what_is_no_number(s);
}

// ---------------------------------------------------------------------------
// Languages
// ---------------------------------------------------------------------------

/// Which extensions belong to which language.
pub proof fn law_language_extensions(ext: Seq<char>)
    ensures
        language::language_of(ext) == Language::Python <==> ext == "py"@,
        language::language_of(ext) == Language::Rust <==> ext == "rs"@,
        language::language_of(ext) == Language::C <==> ext == "c"@ || ext == "h"@ || ext == "cpp"@
            || ext == "hpp"@,
        language::language_of(ext) == Language::Shell <==> ext == "sh"@,
        language::language_by(Some(ext)) == language::language_of(language::lowered(ext)),
        language::language_by(None) == Language::PlainText,
{
    reveal_strlit("py");
    reveal_strlit("rs");
    reveal_strlit("c");
    reveal_strlit("h");
    reveal_strlit("cpp");
    reveal_strlit("hpp");
    reveal_strlit("sh");
    assert("py"@[0] == 'p' && "rs"@[0] == 'r' && "c"@[0] == 'c' && "cpp"@[0] == 'c');
    assert("h"@[0] == 'h' && "hpp"@[0] == 'h' && "sh"@[0] == 's');
    assert("py"@[1] == 'y' && "rs"@[1] == 's' && "sh"@[1] == 'h');
}

/// Making letters small changes the ASCII capitals, each to the letter 32 places on, and
/// nothing else.
pub proof fn law_lowered(s: Seq<char>)
    ensures
        language::lowered(s).len() == s.len(),
        forall|i: int|
            0 <= i < s.len() && 65 <= (#[trigger] s[i]) as u32 && s[i] as u32 <= 90
                ==> language::lowered(s)[i] as u32 == s[i] as u32 + 32,
        forall|i: int|
            0 <= i < s.len() && !(65 <= (#[trigger] s[i]) as u32 && s[i] as u32 <= 90)
                ==> language::lowered(s)[i] == s[i],
{
    assert forall|i: int|
        0 <= i < s.len() && 65 <= (#[trigger] s[i]) as u32 && s[i] as u32
            <= 90 implies language::lowered(s)[i] as u32 == s[i] as u32 + 32 by {
        text::lemma_char_range(s[i]);
        assert(language::lowered(s)[i] == language::lower(s[i]));
    }
    assert forall|i: int|
        0 <= i < s.len() && !(65 <= (#[trigger] s[i]) as u32 && s[i] as u32
            <= 90) implies language::lowered(s)[i] == s[i] by {
        text::lemma_char_range(s[i]);
        assert(language::lowered(s)[i] == language::lower(s[i]));
    }
}

/// The extension of a name is what follows its last dot, unless that starts the name.
pub proof fn law_extension_of_name(stem: Seq<char>, ext: Seq<char>)
    requires
        !ext.contains('.'),
    ensures
        stem.len() > 0 ==> language::extension(stem.push('.') + ext) == Some(ext),
        language::extension(seq!['.'] + ext) is None,
        language::extension(ext) is None,
{
    let name = stem.push('.') + ext;
    let hidden = seq!['.'] + ext;
    lemma_last_dot(name, stem.len() as int);
    lemma_last_dot(hidden, 0);
    language::lemma_last_index(ext, '.');
    if language::last_index(ext, '.') >= 0 {
        assert(ext.contains('.'));
    }
    assert(name.skip(stem.len() as int + 1) =~= ext);
}

proof fn lemma_last_dot(s: Seq<char>, k: int)
    requires
        0 <= k < s.len(),
        s[k] == '.',
        !s.skip(k + 1).contains('.'),
    ensures
        language::last_index(s, '.') == k,
{
    language::lemma_last_index(s, '.');
    let i = language::last_index(s, '.');
    if i > k {
        assert(s.skip(k + 1)[i - k - 1] == '.');
    }
}

/// The name of a file is the last name of its path: slashes and a lone dot behind it do
/// not count, and a path that ends in two dots has none.
pub proof fn law_file_name(dir: Seq<char>, name: Seq<char>)
    requires
        !name.contains('/'),
        name.len() > 0,
        dir.len() > 0 ==> dir.last() == '/',
    ensures
        name != seq!['.'] && name != seq!['.', '.'] ==> language::file_name(dir + name) == Some(
            name,
        ),
        name == seq!['.', '.'] ==> language::file_name(dir + name) is None,
        language::file_name((dir + name).push('/')) == language::file_name(dir + name),
        dir.len() > 0 && name == seq!['.'] ==> language::file_name(dir + name)
            == language::file_name(dir),
        dir.len() > 0 ==> language::file_name(dir) == language::file_name(dir.drop_last()),
{
    let p = dir + name;
    language::lemma_last_index(p, '/');
    let i = language::last_index(p, '/');
    if i >= dir.len() {
        assert(p[i] == name[i - dir.len()]);
    } else if i < dir.len() - 1 {
        assert(p[dir.len() - 1] == '/');
    }
    assert(i == dir.len() - 1);
    assert(p.skip(i + 1) =~= name);
    assert(p.take(i + 1) =~= dir);
    let q = p.push('/');
    assert(q.drop_last() =~= p);
    assert(q.last() == '/');
    if dir.len() > 0 {
        assert(dir.skip(dir.len() as int).len() == 0);
    }
}

/// The bytes that a text and a character take in UTF-8.
pub proof fn law_byte_counts(s: Seq<char>, c: char)
    ensures
        text::byte_len(s) == vstd::utf8::encode_utf8(s).len(),
        text::char_bytes(c) == vstd::utf8::encode_utf8(seq![c]).len(),
{
    let none = Seq::<char>::empty();
    text::lemma_byte_len_push(none, c);
    assert(none.push(c) =~= seq![c]);
    reveal_with_fuel(vstd::utf8::encode_utf8, 1);
}

/// Which names are portable.
pub proof fn law_portable(path: Seq<char>)
    ensures
        language::portable(path) <==> (forall|i: int|
            0 <= i < path.len() ==> #[trigger] path[i] != '\\' && path[i] != ':') && !(path.len()
            > 1 && path[0] == '/' && path[1] == '/'),
{
    if path.contains('\\') {
        let i = choose|i: int| 0 <= i < path.len() && path[i] == '\\';
        assert(path[i] == '\\');
    }
    if path.contains(':') {
        let i = choose|i: int| 0 <= i < path.len() && path[i] == ':';
        assert(path[i] == ':');
    }
    if language::portable(path) {
        assert forall|i: int| 0 <= i < path.len() implies #[trigger] path[i] != '\\' && path[i]
            != ':' by {
            assert(path.contains(path[i]));
        }
    }
}

} // verus!
