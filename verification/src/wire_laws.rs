//! What goes to the assistant and comes back from it, character by character.

use crate::command;
use crate::groq;
use crate::groq::ConfigBase;
use crate::outside;
use crate::program;
use crate::text;
use crate::text_laws;
use vstd::prelude::*;

verus! {

// ---------------------------------------------------------------------------
// Writing JSON strings
// ---------------------------------------------------------------------------

/// Texts are written in a JSON string one behind the other.
pub proof fn law_escape_concat(a: Seq<char>, b: Seq<char>)
    ensures
        groq::escaped(a + b) == groq::escaped(a) + groq::escaped(b),
        groq::escaped(Seq::<char>::empty()) == Seq::<char>::empty(),
    decreases a.len(),
{
    let f = |c: char| groq::escaped_char(c);
    assert(groq::escaped(Seq::<char>::empty()) =~= Seq::<char>::empty());
    if a.len() == 0 {
        assert(a + b =~= b);
        assert(groq::escaped(a) =~= Seq::<char>::empty());
        assert(groq::escaped(a) + groq::escaped(b) =~= groq::escaped(b));
    } else {
        let t = a.drop_first();
        law_escape_concat(t, b);
        assert((a + b).drop_first() =~= t + b);
        assert(a.map_values(f).drop_first() =~= t.map_values(f));
        assert((a + b).map_values(f).drop_first() =~= (t + b).map_values(f));
        assert(groq::escaped(a + b) =~= groq::escaped(a) + groq::escaped(b));
    }
}

/// How one character is written in a JSON string: quotes and backslashes behind a
/// backslash, five control characters by their letters, the others by their code point in
/// four hexadecimal digits, and every other character as it is.
pub proof fn law_escape_character(c: char)
    ensures
        ({
            let e = groq::escaped(seq![c]);
            let u = c as u32 as int;
            &&& c == '"' || c == '\\' ==> e == seq!['\\', c]
            &&& c == '\n' ==> e == seq!['\\', 'n']
            &&& c == '\r' ==> e == seq!['\\', 'r']
            &&& c == '\t' ==> e == seq!['\\', 't']
            &&& u == 8 ==> e == seq!['\\', 'b']
            &&& u == 12 ==> e == seq!['\\', 'f']
            &&& text::control(c) && u != 8 && u != 9 && u != 10 && u != 12 && u != 13 ==> e == seq![
                '\\',
                'u',
                '0',
                '0',
                "0123456789abcdef"@[u / 16],
                "0123456789abcdef"@[u % 16],
            ]
            &&& !text::control(c) && c != '"' && c != '\\' ==> e == seq![c]
        }),
{
    let f = |x: char| groq::escaped_char(x);
    let s = seq![c];
    assert(s.map_values(f) =~= seq![groq::escaped_char(c)]);
    Seq::<Seq<char>>::empty().lemma_flatten_push(groq::escaped_char(c));
    assert(Seq::<Seq<char>>::empty().push(groq::escaped_char(c)) =~= seq![groq::escaped_char(c)]);
    assert(groq::escaped(s) =~= groq::escaped_char(c));
    text::lemma_char_range(c);
    let u = c as u32 as int;
    if text::control(c) {
        lemma_hex_letters(u / 16);
        lemma_hex_letters(u % 16);
        lemma_hex_letters(0);
        assert(u / 4096 % 16 == 0 && u / 256 % 16 == 0 && u / 16 % 16 == u / 16);
    }
}

proof fn lemma_hex_letters(d: int)
    requires
        0 <= d < 16,
    ensures
        groq::hex_digit(d as nat) == "0123456789abcdef"@[d],
        "0123456789abcdef"@[0] == '0',
{
    reveal_strlit("0123456789abcdef");
}

// ---------------------------------------------------------------------------
// Reading JSON strings
// ---------------------------------------------------------------------------

/// A text behind what is read before it.
pub open spec fn before(head: Seq<char>, tail: Option<Seq<char>>) -> Option<Seq<char>> {
    match tail {
        Some(t) => Some(head + t),
        None => None,
    }
}

/// Reading the inside of a JSON string, one character at a time: a quote ends it, a
/// backslash escapes what follows, every other character stands for itself, and a string
/// that does not end cannot be read.
pub proof fn law_string_read(c: char, rest: Seq<char>)
    ensures
        groq::string_inside(Seq::<char>::empty()) is None,
        groq::string_inside(seq!['"'] + rest) == Some(Seq::<char>::empty()),
        c != '"' && c != '\\' ==> groq::string_inside(seq![c] + rest) == before(
            seq![c],
            groq::string_inside(rest),
        ),
        groq::string_inside(seq!['\\']) is None,
        c != 'u' ==> groq::string_inside(seq!['\\', c] + rest) == before(
            seq![
                if c == 'b' {
                    '\u{8}'
                } else if c == 'f' {
                    '\u{c}'
                } else if c == 'n' {
                    '\n'
                } else if c == 'r' {
                    '\r'
                } else if c == 't' {
                    '\t'
                } else {
                    c
                },
            ],
            groq::string_inside(rest),
        ),
        rest.len() < 4 ==> groq::string_inside(seq!['\\', 'u'] + rest) is None,
{
    assert((seq![c] + rest).skip(1) =~= rest);
    assert((seq![c] + rest)[0] == c);
    assert((seq!['\\', c] + rest).skip(2) =~= rest);
    assert((seq!['\\', c] + rest)[0] == '\\' && (seq!['\\', c] + rest)[1] == c);
    assert((seq!['\\', 'u'] + rest)[0] == '\\' && (seq!['\\', 'u'] + rest)[1] == 'u');
}

/// The value of a hexadecimal digit, and sixteen for what is none.
pub open spec fn hex_worth(c: char) -> int {
    let u = c as u32 as int;
    if '0' as u32 <= u <= '9' as u32 {
        u - '0' as u32
    } else if 'a' as u32 <= u <= 'f' as u32 {
        10 + u - 'a' as u32
    } else if 'A' as u32 <= u <= 'F' as u32 {
        10 + u - 'A' as u32
    } else {
        16
    }
}

/// The text that a code point stands for: none for half of a surrogate pair.
pub open spec fn code_character(u: int) -> Seq<char> {
    if 0xd800 <= u <= 0xdfff {
        Seq::empty()
    } else {
        seq![u as char]
    }
}

/// Reading a code escape: four hexadecimal digits stand for the character with that code
/// point; so do three behind a plus sign; anything else stands for nothing. Reading goes
/// on behind the four characters.
pub proof fn law_code_read(a: char, b: char, c: char, d: char, rest: Seq<char>)
    ensures
        ({
            let inside = groq::string_inside(seq!['\\', 'u', a, b, c, d] + rest);
            let low = 256 * hex_worth(b) + 16 * hex_worth(c) + hex_worth(d);
            let good = hex_worth(b) < 16 && hex_worth(c) < 16 && hex_worth(d) < 16;
            &&& good && hex_worth(a) < 16 ==> inside == before(
                code_character(4096 * hex_worth(a) + low),
                groq::string_inside(rest),
            )
            &&& good && a == '+' ==> inside == before(
                code_character(low),
                groq::string_inside(rest),
            )
            &&& !good || (hex_worth(a) >= 16 && a != '+') ==> inside == before(
                Seq::empty(),
                groq::string_inside(rest),
            )
        }),
{
    let s = seq!['\\', 'u', a, b, c, d] + rest;
    let four = seq![a, b, c, d];
    assert(s.skip(6) =~= rest);
    assert(s.subrange(2, 6) =~= four);
    assert(s[0] == '\\' && s[1] == 'u');
    lemma_hex_worth(a);
    lemma_hex_worth(b);
    lemma_hex_worth(c);
    lemma_hex_worth(d);
    let three = four.drop_first();
    assert(three =~= seq![b, c, d]);
    assert(four.drop_last() =~= seq![a, b, c]);
    assert(seq![a, b, c].drop_last() =~= seq![a, b]);
    assert(seq![a, b].drop_last() =~= seq![a]);
    assert(seq![a].drop_last() =~= Seq::<char>::empty());
    assert(three.drop_last() =~= seq![b, c]);
    assert(seq![b, c].drop_last() =~= seq![b]);
    assert(seq![b].drop_last() =~= Seq::<char>::empty());
    assert(four.last() == d && seq![a, b, c].last() == c && seq![a, b].last() == b);
    assert(seq![a].last() == a && three.last() == d && seq![b, c].last() == c);
    assert(seq![b].last() == b && four[0] == a);
    reveal_with_fuel(groq::hex_digits, 5);
    lemma_hex_four(a, b, c, d);
}

proof fn lemma_hex_worth(c: char)
    ensures
        hex_worth(c) < 16 ==> groq::hex_value(c) == Some(hex_worth(c) as nat),
        hex_worth(c) >= 16 ==> groq::hex_value(c) is None,
        hex_worth(c) >= 0,
        c == '+' ==> hex_worth(c) == 16,
{
    text::lemma_char_range(c);
}

proof fn lemma_hex_four(a: char, b: char, c: char, d: char)
    ensures
        ({
            let low = 256 * hex_worth(b) + 16 * hex_worth(c) + hex_worth(d);
            let good = hex_worth(b) < 16 && hex_worth(c) < 16 && hex_worth(d) < 16;
            &&& groq::hex_digits(seq![b, c, d]) == (if good {
                Some(low as nat)
            } else {
                None
            })
            &&& groq::hex_digits(seq![a, b, c, d]) == (if good && hex_worth(a) < 16 {
                Some((4096 * hex_worth(a) + low) as nat)
            } else {
                None
            })
        }),
{
    lemma_hex_worth(a);
    lemma_hex_worth(b);
    lemma_hex_worth(c);
    lemma_hex_worth(d);
    let none = Seq::<char>::empty();
    assert(seq![a, b, c, d].drop_last() =~= seq![a, b, c]);
    assert(seq![a, b, c].drop_last() =~= seq![a, b]);
    assert(seq![a, b].drop_last() =~= seq![a]);
    assert(seq![a].drop_last() =~= none);
    assert(seq![b, c, d].drop_last() =~= seq![b, c]);
    assert(seq![b, c].drop_last() =~= seq![b]);
    assert(seq![b].drop_last() =~= none);
    assert(groq::hex_digits(none) == Some(0nat));
    assert(groq::hex_digits(seq![b]) == groq::hex_value(b));
    assert(groq::hex_digits(seq![a]) == groq::hex_value(a));
    assert(groq::hex_digits(seq![b, c]) == (if hex_worth(b) < 16 && hex_worth(c) < 16 {
        Some((16 * hex_worth(b) + hex_worth(c)) as nat)
    } else {
        None
    }));
    assert(groq::hex_digits(seq![a, b]) == (if hex_worth(a) < 16 && hex_worth(b) < 16 {
        Some((16 * hex_worth(a) + hex_worth(b)) as nat)
    } else {
        None
    }));
    assert(groq::hex_digits(seq![a, b, c]) == (if hex_worth(a) < 16 && hex_worth(b) < 16
        && hex_worth(c) < 16 {
        Some((256 * hex_worth(a) + 16 * hex_worth(b) + hex_worth(c)) as nat)
    } else {
        None
    }));
}

/// The content of a response is the JSON string behind the first place that announces
/// it; without such a place there is none.
pub proof fn law_content_is_first(resp: Seq<char>, k: int)
    ensures
        ({
            let mark = "\"content\":\""@;
            &&& text_laws::stands(resp, mark, k) && (forall|j: int|
                0 <= j < k ==> !#[trigger] text_laws::stands(resp, mark, j)) ==> groq::content_of(
                resp,
            ) == groq::string_inside(resp.skip(k + mark.len()))
            &&& (forall|j: int| 0 <= j ==> !#[trigger] text_laws::stands(resp, mark, j))
                ==> groq::content_of(resp) is None
        }),
{
    let mark = "\"content\":\""@;
    text_laws::law_find_is_first(resp, mark, 0);
    if let Some(m) = text::find_from(resp, mark, 0) {
        assert(text_laws::stands(resp, mark, m));
    }
}

// ---------------------------------------------------------------------------
// Requests and replies
// ---------------------------------------------------------------------------

/// A request is JSON of one form, whatever the model, the file and the request are: only
/// these three are put into it, escaped.
pub proof fn law_request_form(model: Seq<char>, file: Seq<char>, request: Seq<char>)
    ensures
        groq::body_text(model, file, request) == "{\"model\":\""@ + groq::escaped(model)
            + "\",\"messages\":[{\"role\":\"system\",\"content\":\""@ + groq::escaped(
            "You are a concise coding assistant. Be practical and direct."@,
        ) + "\"},{\"role\":\"user\",\"content\":\""@ + "Current file:\\n\\n"@ + groq::escaped(file)
            + "\\n\\nUser request:\\n"@ + groq::escaped(request) + "\"}],\"temperature\":0.2}"@,
        groq::chosen_model(Some(model)) == model,
        groq::chosen_model(None) == "llama-3.3-70b-versatile"@,
{
}

/// curl is called to post the request to the assistant, with the key and the kind of the
/// request in its header.
pub proof fn law_curl_arguments(key: Seq<char>, body: Seq<char>)
    ensures
        groq::curl_arguments(key, body).len() == 10,
        groq::curl_arguments(key, body).take(5) == seq![
            "-sS"@,
            "-X"@,
            "POST"@,
            "https://api.groq.com/openai/v1/chat/completions"@,
            "-H"@,
        ],
        groq::curl_arguments(key, body)[5] == "Authorization: Bearer "@ + key,
        groq::curl_arguments(key, body).subrange(6, 9) == seq![
            "-H"@,
            "Content-Type: application/json"@,
            "-d"@,
        ],
        groq::curl_arguments(key, body)[9] == body,
{
    assert(groq::curl_arguments(key, body).take(5) =~= seq![
        "-sS"@,
        "-X"@,
        "POST"@,
        "https://api.groq.com/openai/v1/chat/completions"@,
        "-H"@,
    ]);
    assert(groq::curl_arguments(key, body).subrange(6, 9) =~= seq![
        "-H"@,
        "Content-Type: application/json"@,
        "-d"@,
    ]);
}

/// What a request comes to. If curl failed, what it printed as an error, without the
/// white space around it, or else what it printed, or else that the request failed. If it
/// did not, the content of the response, unless that is blank or there is none.
pub proof fn law_reply(
    a: Seq<char>,
    out: Seq<char>,
    b: Seq<char>,
    c: Seq<char>,
    err: Seq<char>,
    d: Seq<char>,
)
    requires
        text_laws::blank(a),
        text_laws::blank(b),
        text_laws::blank(c),
        text_laws::blank(d),
        text_laws::tight(out),
        text_laws::tight(err),
    ensures
        ({
            let stdout = a + out + b;
            let stderr = c + err + d;
            &&& err.len() > 0 ==> groq::reply_of(false, stdout, stderr)
                == Err::<Seq<char>, Seq<char>>(err)
            &&& err.len() == 0 && out.len() > 0 ==> groq::reply_of(false, stdout, stderr)
                == Err::<Seq<char>, Seq<char>>(out)
            &&& err.len() == 0 && out.len() == 0 ==> groq::reply_of(false, stdout, stderr)
                == Err::<Seq<char>, Seq<char>>("Groq request failed"@)
            &&& groq::content_of(stdout) matches Some(t) ==> !text_laws::blank(t)
                ==> groq::reply_of(true, stdout, stderr) == Ok::<Seq<char>, Seq<char>>(t)
            &&& groq::content_of(stdout) matches Some(t) ==> text_laws::blank(t) ==> groq::reply_of(
                true,
                stdout,
                stderr,
            ) == Err::<Seq<char>, Seq<char>>("empty Groq reply"@)
            &&& groq::content_of(stdout) is None ==> groq::reply_of(true, stdout, stderr) == Err::<
                Seq<char>,
                Seq<char>,
            >("could not extract Groq response content"@)
        }),
{
    text_laws::law_trimmed_between(a, out, b);
    text_laws::law_trimmed_between(c, err, d);
    if let Some(t) = groq::content_of(a + out + b) {
        text_laws::lemma_blank_trimmed(t);
    }
}

/// What a program printed as the UTF-8 form of a text is that text; of other bytes a text
/// is made as `String::from_utf8_lossy` makes it.
pub proof fn law_printed_text(s: Seq<char>, bytes: Seq<u8>)
    ensures
        program::printed_text(vstd::utf8::encode_utf8(s)) == s,
        !vstd::utf8::valid_utf8(bytes) ==> program::printed_text(bytes) == outside::utf8_lossy(
            bytes,
        ),
{
    vstd::utf8::encode_utf8_decode_utf8(s);
    vstd::utf8::encode_utf8_valid_utf8(s);
}

// ---------------------------------------------------------------------------
// The key, and permissions
// ---------------------------------------------------------------------------

/// The key in a key file is its text without the white space around it, and none if
/// nothing is left or there is no such file.
pub proof fn law_stored_key(a: Seq<char>, key: Seq<char>, b: Seq<char>)
    requires
        text_laws::blank(a),
        text_laws::tight(key),
        text_laws::blank(b),
    ensures
        key.len() > 0 ==> groq::stored_key(Some(a + key + b)) == Some(key),
        key.len() == 0 ==> groq::stored_key(Some(a + key + b)) is None,
        groq::stored_key(None) is None,
{
    text_laws::law_trimmed_between(a, key, b);
}

/// Where the key file lies: in the configuration directory if one is named, else in that
/// of the home directory, else in the directory of the profile, and else nowhere.
pub proof fn law_key_place(home: bool, profile: bool)
    ensures
        groq::config_base(true, home, profile) == Some(ConfigBase::XdgConfigHome),
        groq::config_base(false, true, profile) == Some(ConfigBase::Home),
        groq::config_base(false, false, true) == Some(ConfigBase::UserProfile),
        groq::config_base(false, false, false) is None,
        groq::key_names(ConfigBase::XdgConfigHome) == seq!["van_groq_api_key"@],
        groq::key_names(ConfigBase::Home) == seq![".config"@, "van_groq_api_key"@],
        groq::key_names(ConfigBase::UserProfile) == seq!["van_groq_api_key"@],
{
}

/// A request that is blank is replaced by the usual one, and no other is changed.
pub proof fn law_usual_request(request: Seq<char>)
    ensures
        text_laws::blank(request) ==> command::request_or_default(request)
            == "Review this file and suggest fixes."@,
        !text_laws::blank(request) ==> command::request_or_default(request) == request,
{
    text_laws::lemma_blank_trimmed(request);
}

} // verus!
