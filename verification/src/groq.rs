//! The Groq assistant: the request sent to it, the reply read from it, and its key.

use crate::lines;
use crate::program;
use crate::text;
use vstd::prelude::*;

verus! {

// ---------------------------------------------------------------------------
// JSON strings
// ---------------------------------------------------------------------------

/// The hexadecimal digit for a number below sixteen.
pub open spec fn hex_digit(d: nat) -> char {
    if d < 10 {
        (48 + d) as char
    } else {
        (87 + d) as char
    }
}

/// The JSON escape of a character by its code point.
pub open spec fn code_escape(u: nat) -> Seq<char> {
    seq![
        '\\',
        'u',
        hex_digit(u / 4096 % 16),
        hex_digit(u / 256 % 16),
        hex_digit(u / 16 % 16),
        hex_digit(u % 16),
    ]
}

/// How a character is written in a JSON string.
pub open spec fn escaped_char(c: char) -> Seq<char> {
    if c == '\\' {
        seq!['\\', '\\']
    } else if c == '"' {
        seq!['\\', '"']
    } else if c == '\n' {
        seq!['\\', 'n']
    } else if c == '\r' {
        seq!['\\', 'r']
    } else if c == '\t' {
        seq!['\\', 't']
    } else if c == '\u{8}' {
        seq!['\\', 'b']
    } else if c == '\u{c}' {
        seq!['\\', 'f']
    } else if text::control(c) {
        code_escape(c as u32 as nat)
    } else {
        seq![c]
    }
}

/// A text as it is written in a JSON string.
pub open spec fn escaped(s: Seq<char>) -> Seq<char> {
    s.flat_map(|c: char| escaped_char(c))
}

/// The value of a hexadecimal digit, small or capital.
pub open spec fn hex_value(c: char) -> Option<nat> {
    let u = c as u32 as nat;
    if 48 <= u <= 57 {
        Some((u - 48) as nat)
    } else if 97 <= u <= 102 {
        Some((u - 87) as nat)
    } else if 65 <= u <= 70 {
        Some((u - 55) as nat)
    } else {
        None
    }
}

/// The number that hexadecimal digits stand for; none if one of them is no digit.
pub open spec fn hex_digits(s: Seq<char>) -> Option<nat>
    decreases s.len(),
{
    if s.len() == 0 {
        Some(0)
    } else {
        match (hex_digits(s.drop_last()), hex_value(s.last())) {
            (Some(high), Some(low)) => Some(16 * high + low),
            _ => None,
        }
    }
}

/// The number written in hexadecimal in `s`; a plus sign may stand before it.
pub open spec fn hex_number(s: Seq<char>) -> Option<nat> {
    if s.len() > 1 && s[0] == '+' {
        hex_digits(s.drop_first())
    } else if s.len() > 0 {
        hex_digits(s)
    } else {
        None
    }
}

/// The text that the digits of a code escape stand for: the character with that
/// code point; nothing if the digits are no number or there is no such character.
pub open spec fn code_text(digits: Seq<char>) -> Seq<char> {
    match hex_number(digits) {
        Some(u) => if u < 0xd800 || 0xe000 <= u <= 0xffff {
            seq![u as char]
        } else {
            Seq::empty()
        },
        None => Seq::empty(),
    }
}

/// What an escape of one character stands for.
pub open spec fn unescaped(c: char) -> char {
    if c == 'b' {
        '\u{8}'
    } else if c == 'f' {
        '\u{c}'
    } else if c == 'n' {
        '\n'
    } else if c == 'r' {
        '\r'
    } else if c == 't' {
        '\t'
    } else {
        c
    }
}

/// `head` set before a text, if there is one.
pub open spec fn prepended(head: Seq<char>, tail: Option<Seq<char>>) -> Option<Seq<char>> {
    match tail {
        Some(t) => Some(head + t),
        None => None,
    }
}

/// The text of the JSON string whose inside starts `s`; none if `s` ends before the
/// string does.
pub open spec fn string_inside(s: Seq<char>) -> Option<Seq<char>>
    decreases s.len(),
{
    if s.len() == 0 {
        None
    } else if s[0] == '"' {
        Some(Seq::empty())
    } else if s[0] != '\\' {
        prepended(seq![s[0]], string_inside(s.skip(1)))
    } else if s.len() < 2 {
        None
    } else if s[1] != 'u' {
        prepended(seq![unescaped(s[1])], string_inside(s.skip(2)))
    } else if s.len() < 6 {
        None
    } else {
        prepended(code_text(s.subrange(2, 6)), string_inside(s.skip(6)))
    }
}

/// What stands before the text of a reply.
pub open spec fn content_marker() -> Seq<char> {
    "\"content\":\""@
}

/// The text of the first content field of a response.
pub open spec fn content_of(resp: Seq<char>) -> Option<Seq<char>> {
    match text::find_from(resp, content_marker(), 0) {
        Some(k) => string_inside(resp.skip(k + content_marker().len())),
        None => None,
    }
}

fn hex_char(d: u8) -> (c: char)
    requires
        d < 16,
    ensures
        c == hex_digit(d as nat),
{
    if d < 10 {
        (48 + d) as char
    } else {
        (87 + d) as char
    }
}

/// `s` as it is written in a JSON string.
pub fn json_escape(s: &str) -> (r: String)
    ensures
        r@ == escaped(s@),
{
    let v = text::to_chars(s);
    let ghost f = |c: char| escaped_char(c);
    let mut out = String::new();
    let mut i: usize = 0;
    assert(s@.take(0).flat_map(f) =~= Seq::<char>::empty());
    while i < v.len()
        invariant
            v@ == s@,
            i <= v@.len(),
            f == (|c: char| escaped_char(c)),
            out@ == s@.take(i as int).flat_map(f),
        decreases v@.len() - i,
    {
        let c = v[i];
        let ghost before = out@;
        proof {
            s@.lemma_flat_map_take_append(f, i as int);
        }
        if c == '\\' {
            out.push('\\');
            out.push('\\');
        } else if c == '"' {
            out.push('\\');
            out.push('"');
        } else if c == '\n' {
            out.push('\\');
            out.push('n');
        } else if c == '\r' {
            out.push('\\');
            out.push('r');
        } else if c == '\t' {
            out.push('\\');
            out.push('t');
        } else if c == '\u{8}' {
            out.push('\\');
            out.push('b');
        } else if c == '\u{c}' {
            out.push('\\');
            out.push('f');
        } else if text::is_control(c) {
            let u: u32 = c as u32;
            out.push('\\');
            out.push('u');
            out.push(hex_char((u / 4096 % 16) as u8));
            out.push(hex_char((u / 256 % 16) as u8));
            out.push(hex_char((u / 16 % 16) as u8));
            out.push(hex_char((u % 16) as u8));
            assert(out@ =~= before + code_escape(u as nat));
        } else {
            out.push(c);
        }
        assert(out@ =~= before + escaped_char(c));
        i = i + 1;
    }
    assert(s@.take(i as int) =~= s@);
    out
}

fn hex_of(c: char) -> (d: Option<u32>)
    ensures
        match d {
            Some(x) => hex_value(c) == Some(x as nat) && x < 16,
            None => hex_value(c) is None,
        },
{
    let u: u32 = c as u32;
    if 48 <= u && u <= 57 {
        Some(u - 48)
    } else if 97 <= u && u <= 102 {
        Some(u - 87)
    } else if 65 <= u && u <= 70 {
        Some(u - 55)
    } else {
        None
    }
}

/// The number written in hexadecimal in four characters.
fn read_hex(v: &Vec<char>, at: usize) -> (n: Option<u32>)
    requires
        at + 4 <= v@.len(),
    ensures
        match n {
            Some(x) => hex_number(v@.subrange(at as int, at + 4)) == Some(x as nat) && x <= 0xffff,
            None => hex_number(v@.subrange(at as int, at + 4)) is None,
        },
{
    let total: usize = v.len();
    let ghost all = v@.subrange(at as int, at + 4);
    let start: usize = if v[at] == '+' {
        1
    } else {
        0
    };
    let ghost digits = all.skip(start as int);
    assert(start == 1 ==> digits =~= all.drop_first());
    assert(start == 0 ==> digits =~= all);
    let mut i: usize = start;
    let mut n: u32 = 0;
    assert(digits.take(0) =~= Seq::<char>::empty());
    while i < 4
        invariant
            at + 4 <= total == v@.len(),
            all == v@.subrange(at as int, at + 4),
            digits == all.skip(start as int),
            hex_number(all) == hex_digits(digits),
            start <= i <= 4,
            start <= 1,
            hex_digits(digits.take(i - start)) == Some(n as nat),
            i == 0 ==> n == 0,
            i == 1 ==> n < 16,
            i == 2 ==> n < 256,
            i == 3 ==> n < 4096,
            i == 4 ==> n < 65536,
        decreases 4 - i,
    {
        let c = v[at + i];
        let ghost more = digits.take(i + 1 - start);
        assert(more.drop_last() =~= digits.take(i - start));
        assert(more.last() == c);
        match hex_of(c) {
            Some(d) => {
                n = 16 * n + d;
            },
            None => {
                proof {
                    lemma_bad_digit(digits, i - start);
                }
                return None;
            },
        }
        i = i + 1;
    }
    assert(digits.take(4 - start) =~= digits);
    Some(n)
}

proof fn lemma_bad_digit(s: Seq<char>, i: int)
    requires
        0 <= i < s.len(),
        hex_value(s[i]) is None,
    ensures
        hex_digits(s) is None,
    decreases s.len(),
{
    if i < s.len() - 1 {
        lemma_bad_digit(s.drop_last(), i);
    }
}

/// The text of the first content field of a response of the assistant.
pub fn extract_groq_content(resp: &str) -> (r: Option<String>)
    ensures
        match r {
            Some(t) => content_of(resp@) == Some(t@),
            None => content_of(resp@) is None,
        },
{
    let v = text::to_chars(resp);
    let marker = text::to_chars("\"content\":\"");
    let found = match text::find(&v, &marker, 0) {
        Some(k) => k,
        None => {
            return None;
        },
    };
    proof {
        text::lemma_find_from(v@, marker@, 0);
    }
    let total: usize = v.len();
    let start: usize = found + marker.len();
    let ghost inside = v@.skip(start as int);
    let mut out = String::new();
    let mut i: usize = start;
    assert(prepended(out@, string_inside(inside)) == string_inside(inside)) by {
        match string_inside(inside) {
            Some(t) => {
                assert(out@ + t =~= t);
            },
            None => {},
        }
    }
    while i < v.len()
        invariant
            v@ == resp@,
            content_of(resp@) == string_inside(inside),
            start <= i <= total == v@.len(),
            string_inside(inside) == prepended(out@, string_inside(v@.skip(i as int))),
        decreases v@.len() - i,
    {
        let ghost rest = v@.skip(i as int);
        let ghost before = out@;
        let c = v[i];
        assert(rest[0] == c);
        if c == '"' {
            assert(before + Seq::<char>::empty() =~= before);
            return Some(out);
        }
        if c != '\\' {
            out.push(c);
            i = i + 1;
            proof {
                lemma_step(before, seq![c], out@, string_inside(v@.skip(i as int)));
                assert(rest.skip(1) =~= v@.skip(i as int));
            }
        } else {
            if v.len() - i < 2 {
                return None;
            }
            let esc = v[i + 1];
            assert(rest[1] == esc);
            if esc != 'u' {
                let plain = if esc == 'b' {
                    '\u{8}'
                } else if esc == 'f' {
                    '\u{c}'
                } else if esc == 'n' {
                    '\n'
                } else if esc == 'r' {
                    '\r'
                } else if esc == 't' {
                    '\t'
                } else {
                    esc
                };
                out.push(plain);
                i = i + 2;
                proof {
                    lemma_step(before, seq![unescaped(esc)], out@, string_inside(v@.skip(i as int)));
                    assert(rest.skip(2) =~= v@.skip(i as int));
                }
            } else {
                if v.len() - i < 6 {
                    return None;
                }
                assert(rest.subrange(2, 6) =~= v@.subrange(i + 2, i + 6));
                let ghost digits = rest.subrange(2, 6);
                if let Some(code) = read_hex(&v, i + 2) {
                    if let Some(ch) = char::from_u32(code) {
                        proof {
                            vstd::utf8::char_u32_cast(ch, code);
                        }
                        out.push(ch);
                    }
                }
                assert(out@ =~= before + code_text(digits));
                i = i + 6;
                proof {
                    lemma_step(before, code_text(digits), out@, string_inside(v@.skip(i as int)));
                    assert(rest.skip(6) =~= v@.skip(i as int));
                }
            }
        }
    }
    None
}

proof fn lemma_step(before: Seq<char>, more: Seq<char>, after: Seq<char>, tail: Option<Seq<char>>)
    requires
        after =~= before + more,
    ensures
        prepended(before, prepended(more, tail)) == prepended(after, tail),
{
    match tail {
        Some(t) => {
            assert(before + (more + t) =~= after + t);
        },
        None => {},
    }
}

proof fn lemma_escaped_reads(s: Seq<char>, rest: Seq<char>)
    ensures
        string_inside(escaped(s) + rest) == prepended(s, string_inside(rest)),
    decreases s.len(),
{
    let f = |c: char| escaped_char(c);
    if s.len() == 0 {
        assert(escaped(s) + rest =~= rest);
        lemma_step(s, Seq::empty(), Seq::empty(), string_inside(rest));
        if let Some(t) = string_inside(rest) {
            assert(s + t =~= t);
        }
    } else {
        let tail = s.drop_first();
        lemma_escaped_reads(tail, rest);
        assert(s.map_values(f).drop_first() =~= tail.map_values(f));
        assert(escaped(s) + rest =~= escaped_char(s[0]) + (escaped(tail) + rest));
        lemma_char_reads_back(s[0], escaped(tail) + rest);
        lemma_step(seq![s[0]], tail, s, string_inside(rest));
    }
}

/// Reading back what was written: the inside of a JSON string that `escaped` wrote,
/// up to its closing quote, reads as the text that was escaped.
pub proof fn law_escape_reads_back(s: Seq<char>, rest: Seq<char>)
    ensures
        string_inside(escaped(s) + seq!['"'] + rest) == Some(s),
{
    let end = seq!['"'] + rest;
    assert(escaped(s) + seq!['"'] + rest =~= escaped(s) + end);
    lemma_escaped_reads(s, end);
    assert(string_inside(end) == Some(Seq::<char>::empty()));
    assert(s + Seq::<char>::empty() =~= s);
}

proof fn lemma_char_reads_back(c: char, after: Seq<char>)
    ensures
        string_inside(escaped_char(c) + after) == prepended(seq![c], string_inside(after)),
{
    let e = escaped_char(c);
    let all = e + after;
    assert(all.skip(e.len() as int) =~= after);
    assert(all[0] == e[0]);
    if e.len() == 2 {
        assert(all[1] == e[1]);
    } else if e.len() == 6 {
        let u = c as u32 as nat;
        let d = all.subrange(2, 6);
        assert(d =~= e.subrange(2, 6));
        assert(all[1] == 'u');
        assert(d.drop_last().drop_last().drop_last().drop_last() =~= Seq::<char>::empty());
        assert(d[0] == hex_digit(0) && d[1] == hex_digit(0));
        assert(d[2] == hex_digit(u / 16 % 16) && d[3] == hex_digit(u % 16));
        reveal_with_fuel(hex_digits, 5);
        assert(hex_digits(d) == Some(u));
        vstd::utf8::char_u32_cast(c, c as u32);
        assert(code_text(d) == seq![c]);
    }
}

/// The content field of a response is read back as the text that was put into it.
pub proof fn law_content_reads_back(before: Seq<char>, s: Seq<char>, after: Seq<char>)
    requires
        forall|j: int|
            0 <= j < before.len() ==> !#[trigger] text::occurs_at(
                before + content_marker() + escaped(s) + seq!['"'] + after,
                content_marker(),
                j,
            ),
    ensures
        content_of(before + content_marker() + escaped(s) + seq!['"'] + after) == Some(s),
{
    let resp = before + content_marker() + escaped(s) + seq!['"'] + after;
    let k = before.len() as int;
    assert(resp.subrange(k, k + content_marker().len()) =~= content_marker());
    text::lemma_find_is(resp, content_marker(), 0, k);
    assert(resp.skip(k + content_marker().len()) =~= escaped(s) + seq!['"'] + after);
    law_escape_reads_back(s, after);
}

/// An escaped text holds no control character, so it stays within one JSON string.
pub proof fn law_escaped_is_plain(s: Seq<char>)
    ensures
        forall|i: int| 0 <= i < escaped(s).len() ==> !text::control(#[trigger] escaped(s)[i]),
    decreases s.len(),
{
    let f = |c: char| escaped_char(c);
    if s.len() > 0 {
        let tail = s.drop_first();
        law_escaped_is_plain(tail);
        assert(s.map_values(f).drop_first() =~= tail.map_values(f));
        assert(escaped(s) =~= escaped_char(s[0]) + escaped(tail));
        let e = escaped_char(s[0]);
        assert forall|i: int| 0 <= i < e.len() implies !text::control(#[trigger] e[i]) by {}
        assert forall|i: int| 0 <= i < escaped(s).len() implies !text::control(
            #[trigger] escaped(s)[i],
        ) by {
            if i < e.len() {
                assert(escaped(s)[i] == e[i]);
            } else {
                assert(escaped(s)[i] == escaped(tail)[i - e.len()]);
            }
        }
    }
}

// ---------------------------------------------------------------------------
// The request
// ---------------------------------------------------------------------------

/// The model asked, unless another one is named.
pub open spec fn chosen_model(named: Option<Seq<char>>) -> Seq<char> {
    match named {
        Some(m) => m,
        None => "llama-3.3-70b-versatile"@,
    }
}

/// The JSON text that puts a message to the model, up to the inside of the message.
pub open spec fn body_head(model: Seq<char>) -> Seq<char> {
    "{\"model\":\""@ + escaped(model)
        + "\",\"messages\":[{\"role\":\"system\",\"content\":\""@ + escaped(
        "You are a concise coding assistant. Be practical and direct."@,
    ) + "\"},{\"role\":\"user\",\"content\":\""@
}

/// The JSON text that puts `request` about a file to the model.
pub open spec fn body_text(model: Seq<char>, file: Seq<char>, request: Seq<char>) -> Seq<char> {
    body_head(model) + "Current file:\\n\\n"@ + escaped(file) + "\\n\\nUser request:\\n"@
        + escaped(request) + "\"}],\"temperature\":0.2}"@
}

/// The arguments with which curl sends a request.
pub open spec fn curl_arguments(key: Seq<char>, body: Seq<char>) -> Seq<Seq<char>> {
    seq![
        "-sS"@,
        "-X"@,
        "POST"@,
        "https://api.groq.com/openai/v1/chat/completions"@,
        "-H"@,
        "Authorization: Bearer "@ + key,
        "-H"@,
        "Content-Type: application/json"@,
        "-d"@,
        body,
    ]
}

/// The JSON text that puts `request` about the file text `file` to `model`.
pub fn request_body(model: &str, file: &str, request: &str) -> (body: String)
    ensures
        body@ == body_text(model@, file@, request@),
{
    let mut body = "{\"model\":\"".to_string();
    body.append(json_escape(model).as_str());
    body.append("\",\"messages\":[{\"role\":\"system\",\"content\":\"");
    body.append(
        json_escape("You are a concise coding assistant. Be practical and direct.").as_str(),
    );
    body.append("\"},{\"role\":\"user\",\"content\":\"");
    body.append("Current file:\\n\\n");
    body.append(json_escape(file).as_str());
    body.append("\\n\\nUser request:\\n");
    body.append(json_escape(request).as_str());
    body.append("\"}],\"temperature\":0.2}");
    body
}

/// A text that a JSON string holds as it is.
spec fn plain(p: Seq<char>) -> bool {
    forall|i: int| 0 <= i < p.len() ==> #[trigger] p[i] != '"' && p[i] != '\\'
}

proof fn lemma_plain_reads(p: Seq<char>, rest: Seq<char>)
    requires
        plain(p),
    ensures
        string_inside(p + rest) == prepended(p, string_inside(rest)),
    decreases p.len(),
{
    if p.len() == 0 {
        assert(p + rest =~= rest);
        if let Some(t) = string_inside(rest) {
            assert(p + t =~= t);
        }
    } else {
        let tail = p.drop_first();
        assert forall|i: int| 0 <= i < tail.len() implies #[trigger] tail[i] != '"' && tail[i]
            != '\\' by {
            assert(tail[i] == p[i + 1]);
        }
        lemma_plain_reads(tail, rest);
        assert((p + rest).skip(1) =~= tail + rest);
        assert((p + rest)[0] == p[0]);
        lemma_step(seq![p[0]], tail, p, string_inside(rest));
    }
}

proof fn lemma_break_reads(rest: Seq<char>)
    ensures
        string_inside(seq!['\\', 'n'] + rest) == prepended(seq!['\n'], string_inside(rest)),
{
    assert((seq!['\\', 'n'] + rest).skip(2) =~= rest);
}

/// A message: `title` and `file`, each with two line breaks `br` behind it, and `label`
/// and `request`, with one in between.
spec fn grouped(
    title: Seq<char>,
    br: Seq<char>,
    file: Seq<char>,
    label: Seq<char>,
    request: Seq<char>,
) -> Seq<char> {
    title + br + br + (file + br + br + (label + (br + request)))
}

/// What stands in a message from `label` on, up to the quote that starts `end`.
proof fn lemma_label_reads(label: Seq<char>, request: Seq<char>, end: Seq<char>)
    requires
        plain(label),
        end.len() > 0,
        end[0] == '"',
    ensures
        string_inside(label + (seq!['\\', 'n'] + (escaped(request) + end))) == Some(
            label + seq!['\n'] + request,
        ),
{
    lemma_escaped_reads(request, end);
    lemma_break_reads(escaped(request) + end);
    lemma_plain_reads(label, seq!['\\', 'n'] + (escaped(request) + end));
    assert(label + (seq!['\n'] + (request + Seq::<char>::empty())) =~= label + seq!['\n'] + request);
}

/// A text and two line breaks before something that reads as `after`.
proof fn lemma_paragraph_reads(written: Seq<char>, read: Seq<char>, rest: Seq<char>, after: Seq<char>)
    requires
        string_inside(rest) == Some(after),
        forall|r: Seq<char>| #[trigger]
            string_inside(written + r) == prepended(read, string_inside(r)),
    ensures
        string_inside(written + seq!['\\', 'n'] + seq!['\\', 'n'] + rest) == Some(
            read + seq!['\n'] + seq!['\n'] + after,
        ),
{
    let br = seq!['\\', 'n'];
    let nl = seq!['\n'];
    lemma_break_reads(rest);
    lemma_break_reads(br + rest);
    assert(written + br + br + rest =~= written + (br + (br + rest)));
    assert(read + (nl + (nl + after)) =~= read + nl + nl + after);
}

proof fn lemma_message_reads(
    title: Seq<char>,
    file: Seq<char>,
    label: Seq<char>,
    request: Seq<char>,
    end: Seq<char>,
)
    requires
        plain(title),
        plain(label),
        end.len() > 0,
        end[0] == '"',
    ensures
        string_inside(grouped(title, seq!['\\', 'n'], escaped(file), label, escaped(request) + end))
            == Some(grouped(title, seq!['\n'], file, label, request)),
{
    let br = seq!['\\', 'n'];
    let nl = seq!['\n'];
    let tail = label + (br + (escaped(request) + end));
    lemma_label_reads(label, request, end);
    assert(label + nl + request =~= label + (nl + request));
    assert forall|r: Seq<char>| #[trigger]
        string_inside(escaped(file) + r) == prepended(file, string_inside(r)) by {
        lemma_escaped_reads(file, r);
    }
    lemma_paragraph_reads(escaped(file), file, tail, label + (nl + request));
    assert forall|r: Seq<char>| #[trigger]
        string_inside(title + r) == prepended(title, string_inside(r)) by {
        lemma_plain_reads(title, r);
    }
    lemma_paragraph_reads(
        title,
        title,
        escaped(file) + br + br + tail,
        file + nl + nl + (label + (nl + request)),
    );
}

proof fn lemma_model_reads(model: Seq<char>, file: Seq<char>, request: Seq<char>)
    ensures
        string_inside(body_text(model, file, request).skip("{\"model\":\""@.len() as int)) == Some(
            model,
        ),
{
    let body = body_text(model, file, request);
    reveal_strlit("\",\"messages\":[{\"role\":\"system\",\"content\":\"");
    let m = "{\"model\":\""@.len() as int;
    let after = body.skip(m + escaped(model).len() + 1);
    assert(body.skip(m) =~= escaped(model) + seq!['"'] + after);
    law_escape_reads_back(model, after);
}

/// The words around the file and the request in a message: `title` before the file and
/// `label` before the request, with line breaks in between.
proof fn lemma_message_words(title: Seq<char>, label: Seq<char>)
    requires
        title == "Current file:\n\n"@.take(13),
        label == "\n\nUser request:\n"@.subrange(2, 15),
    ensures
        plain(title),
        plain(label),
        "Current file:\\n\\n"@ == title + seq!['\\', 'n'] + seq!['\\', 'n'],
        "Current file:\n\n"@ == title + seq!['\n'] + seq!['\n'],
        "\\n\\nUser request:\\n"@ == seq!['\\', 'n'] + seq!['\\', 'n'] + label + seq!['\\', 'n'],
        "\n\nUser request:\n"@ == seq!['\n'] + seq!['\n'] + label + seq!['\n'],
{
    reveal_strlit("Current file:\\n\\n");
    reveal_strlit("Current file:\n\n");
    reveal_strlit("\\n\\nUser request:\\n");
    reveal_strlit("\n\nUser request:\n");
    assert("Current file:\\n\\n"@ =~= title + seq!['\\', 'n'] + seq!['\\', 'n']);
    assert("Current file:\n\n"@ =~= title + seq!['\n'] + seq!['\n']);
    assert("\\n\\nUser request:\\n"@ =~= seq!['\\', 'n'] + seq!['\\', 'n'] + label + seq![
        '\\',
        'n',
    ]);
    assert("\n\nUser request:\n"@ =~= seq!['\n'] + seq!['\n'] + label + seq!['\n']);
}

/// What a request says is what it was made of: its model reads as the one that was
/// named, and its message as the text of the file and the request, whatever they hold.
pub proof fn law_request_reads_back(model: Seq<char>, file: Seq<char>, request: Seq<char>)
    ensures
        string_inside(body_text(model, file, request).skip("{\"model\":\""@.len() as int)) == Some(
            model,
        ),
        string_inside(body_text(model, file, request).skip(body_head(model).len() as int)) == Some(
            "Current file:\n\n"@ + file + "\n\nUser request:\n"@ + request,
        ),
{
    let title = "Current file:\n\n"@.take(13);
    let label = "\n\nUser request:\n"@.subrange(2, 15);
    let end = "\"}],\"temperature\":0.2}"@;
    lemma_model_reads(model, file, request);
    lemma_message_words(title, label);
    assert(end.len() > 0 && end[0] == '"') by {
        reveal_strlit("\"}],\"temperature\":0.2}");
    }
    lemma_message_reads(title, file, label, request, end);
    assert(body_text(model, file, request).skip(body_head(model).len() as int) == grouped(
        title,
        seq!['\\', 'n'],
        escaped(file),
        label,
        escaped(request) + end,
    )) by {
        lemma_regroup(
            body_head(model),
            title,
            seq!['\\', 'n'],
            escaped(file),
            label,
            escaped(request),
            end,
        );
    }
    lemma_regroup(Seq::empty(), title, seq!['\n'], file, label, request, Seq::empty());
}

proof fn lemma_regroup(
    head: Seq<char>,
    title: Seq<char>,
    br: Seq<char>,
    file: Seq<char>,
    label: Seq<char>,
    request: Seq<char>,
    end: Seq<char>,
)
    ensures
        (head + (title + br + br) + file + (br + br + label + br) + request + end).skip(
            head.len() as int,
        ) == grouped(title, br, file, label, request + end),
        (title + br + br) + file + (br + br + label + br) + request == grouped(
            title,
            br,
            file,
            label,
            request,
        ),
{
    let all = grouped(title, br, file, label, request + end);
    assert(head + (title + br + br) + file + (br + br + label + br) + request + end =~= head + all);
    assert((head + all).skip(head.len() as int) =~= all);
    assert((title + br + br) + file + (br + br + label + br) + request =~= grouped(
        title,
        br,
        file,
        label,
        request,
    ));
}

/// The arguments with which curl sends `body` under the key `key`.
pub fn curl_args(key: &str, body: String) -> (args: Vec<String>)
    ensures
        lines::contents(args@) == curl_arguments(key@, body@),
{
    let mut auth = "Authorization: Bearer ".to_string();
    auth.append(key);
    let mut args: Vec<String> = Vec::new();
    args.push("-sS".to_string());
    args.push("-X".to_string());
    args.push("POST".to_string());
    args.push("https://api.groq.com/openai/v1/chat/completions".to_string());
    args.push("-H".to_string());
    args.push(auth);
    args.push("-H".to_string());
    args.push("Content-Type: application/json".to_string());
    args.push("-d".to_string());
    args.push(body);
    assert(lines::contents(args@) =~= curl_arguments(key@, body@));
    args
}

// ---------------------------------------------------------------------------
// The reply
// ---------------------------------------------------------------------------

/// The outcome of a request as texts.
pub open spec fn outcome_text(r: Result<String, String>) -> Result<Seq<char>, Seq<char>> {
    match r {
        Ok(t) => Ok(t@),
        Err(e) => Err(e@),
    }
}

/// What a request comes to, by whether curl ended well and what it printed.
pub open spec fn reply_of(success: bool, stdout: Seq<char>, stderr: Seq<char>) -> Result<
    Seq<char>,
    Seq<char>,
> {
    if !success {
        if text::trimmed(stderr).len() > 0 {
            Err(text::trimmed(stderr))
        } else if text::trimmed(stdout).len() > 0 {
            Err(text::trimmed(stdout))
        } else {
            Err("Groq request failed"@)
        }
    } else {
        match content_of(stdout) {
            Some(reply) => if text::trimmed(reply).len() == 0 {
                Err("empty Groq reply"@)
            } else {
                Ok(reply)
            },
            None => Err("could not extract Groq response content"@),
        }
    }
}

/// What a request comes to, by whether curl ended well and what it printed.
pub fn groq_reply(success: bool, stdout: &str, stderr: &str) -> (r: Result<String, String>)
    ensures
        outcome_text(r) == reply_of(success, stdout@, stderr@),
{
    if !success {
        let err = text::trim(stderr);
        if !err.is_empty() {
            return Err(err.to_string());
        }
        let out = text::trim(stdout);
        if !out.is_empty() {
            return Err(out.to_string());
        }
        return Err("Groq request failed".to_string());
    }
    match extract_groq_content(stdout) {
        Some(reply) => {
            if text::trim(reply.as_str()).is_empty() {
                Err("empty Groq reply".to_string())
            } else {
                Ok(reply)
            }
        },
        None => Err("could not extract Groq response content".to_string()),
    }
}

/// What a request comes to, by whether curl ended well and the bytes that it printed.
pub fn groq_reply_bytes(success: bool, stdout: &[u8], stderr: &[u8]) -> (r: Result<String, String>)
    ensures
        outcome_text(r) == reply_of(
            success,
            program::printed_text(stdout@),
            program::printed_text(stderr@),
        ),
{
    let out = program::program_text(stdout);
    let err = program::program_text(stderr);
    groq_reply(success, out.as_str(), err.as_str())
}

// ---------------------------------------------------------------------------
// The key
// ---------------------------------------------------------------------------

/// The variable of the environment whose directory holds the key file.
#[derive(Clone, Copy, PartialEq, Eq, Debug, Structural)]
pub enum ConfigBase {
    XdgConfigHome,
    Home,
    UserProfile,
}

/// Where the key file lies: the names that lead to it from a directory.
pub struct KeyPath {
    pub base: ConfigBase,
    pub names: Vec<String>,
}

/// The key file below the directory that `base` names.
pub open spec fn key_names(base: ConfigBase) -> Seq<Seq<char>> {
    if base == ConfigBase::Home {
        seq![".config"@, "van_groq_api_key"@]
    } else {
        seq!["van_groq_api_key"@]
    }
}

/// The first of the three variables that is set.
pub open spec fn config_base(xdg: bool, home: bool, profile: bool) -> Option<ConfigBase> {
    if xdg {
        Some(ConfigBase::XdgConfigHome)
    } else if home {
        Some(ConfigBase::Home)
    } else if profile {
        Some(ConfigBase::UserProfile)
    } else {
        None
    }
}

/// The key that a key file holds: its text without white space around it, if that
/// leaves anything.
pub open spec fn stored_key(file: Option<Seq<char>>) -> Option<Seq<char>> {
    match file {
        Some(t) => if text::trimmed(t).len() == 0 {
            None
        } else {
            Some(text::trimmed(t))
        },
        None => None,
    }
}

/// Where the key file lies, by which variables of the environment are set.
pub fn groq_api_key_path(xdg: bool, home: bool, profile: bool) -> (r: Option<KeyPath>)
    ensures
        match r {
            Some(path) => config_base(xdg, home, profile) == Some(path.base) && lines::contents(
                path.names@,
            ) == key_names(path.base),
            None => config_base(xdg, home, profile) is None,
        },
{
    let base = if xdg {
        ConfigBase::XdgConfigHome
    } else if home {
        ConfigBase::Home
    } else if profile {
        ConfigBase::UserProfile
    } else {
        return None;
    };
    let mut names: Vec<String> = Vec::new();
    if base == ConfigBase::Home {
        names.push(".config".to_string());
    }
    names.push("van_groq_api_key".to_string());
    assert(lines::contents(names@) =~= key_names(base));
    Some(KeyPath { base, names })
}

/// The key that the key file holds, whose text is `file` if it could be read.
pub fn load_groq_api_key(file: Option<String>) -> (key: Option<String>)
    ensures
        text::text_of(key) == stored_key(text::text_of(file)),
{
    match file {
        Some(t) => {
            let key = text::trim(t.as_str());
            if key.is_empty() {
                None
            } else {
                Some(key.to_string())
            }
        },
        None => None,
    }
}

/// The text that is written to the key file to store `key`.
pub fn key_file_text(key: &str) -> (t: String)
    ensures
        t@ == text::trimmed(key@),
{
    text::trim(key).to_string()
}

/// Reading back what was written: the key file that stores a key holds that key,
/// without white space around it; a blank key is read as none.
pub proof fn law_key_reads_back(key: Seq<char>)
    ensures
        stored_key(Some(text::trimmed(key))) == stored_key(Some(key)),
        stored_key(Some(key)) == (if text::trimmed(key).len() == 0 {
            None
        } else {
            Some(text::trimmed(key))
        }),
{
    text::law_trim_once(key);
}

} // verus!
