//! Text as sequences of characters: character classes, UTF-8 offsets, trimming,
//! prefixes and searching.

use vstd::prelude::*;

verus! {

// ---------------------------------------------------------------------------
// Character classes
// ---------------------------------------------------------------------------

/// Characters with the Unicode property White_Space.
pub open spec fn whitespace(c: char) -> bool {
    let u = c as u32;
    ||| 0x9 <= u <= 0xd
    ||| u == 0x20
    ||| u == 0x85
    ||| u == 0xa0
    ||| u == 0x1680
    ||| 0x2000 <= u <= 0x200a
    ||| u == 0x2028
    ||| u == 0x2029
    ||| u == 0x202f
    ||| u == 0x205f
    ||| u == 0x3000
}

/// Control characters: the Unicode general category Cc.
pub open spec fn control(c: char) -> bool {
    let u = c as u32;
    u <= 0x1f || 0x7f <= u <= 0x9f
}

/// A character is a Unicode scalar value.
pub proof fn lemma_char_range(c: char)
    ensures
        0 <= c as int <= 0xd7ff || 0xe000 <= c as int <= 0x10ffff,
{
}

/// Whether `c` is white space.
pub fn is_whitespace(c: char) -> (r: bool)
    ensures
        r == whitespace(c),
{
    let u: u32 = c as u32;
    (0x9 <= u && u <= 0xd) || u == 0x20 || u == 0x85 || u == 0xa0 || u == 0x1680 || (0x2000 <= u
        && u <= 0x200a) || u == 0x2028 || u == 0x2029 || u == 0x202f || u == 0x205f || u == 0x3000
}

/// Whether `c` is a control character.
pub fn is_control(c: char) -> (r: bool)
    ensures
        r == control(c),
{
    let u: u32 = c as u32;
    u <= 0x1f || (0x7f <= u && u <= 0x9f)
}

// ---------------------------------------------------------------------------
// Strings and vectors of characters
// ---------------------------------------------------------------------------

/// The characters of `s`, one by one.
pub fn to_chars(s: &str) -> (v: Vec<char>)
    ensures
        v@ == s@,
{
    let mut v: Vec<char> = Vec::new();
    for c in it: s.chars()
        invariant
            v@ == it.seq().take(it.index()),
    {
        v.push(c);
    }
    v
}

/// The characters of `v` from `from` up to `to`, as a string.
pub fn from_chars(v: &Vec<char>, from: usize, to: usize) -> (s: String)
    requires
        from <= to <= v@.len(),
    ensures
        s@ == v@.subrange(from as int, to as int),
{
    let mut s = String::new();
    let mut i: usize = from;
    while i < to
        invariant
            from <= i <= to <= v@.len(),
            s@ == v@.subrange(from as int, i as int),
        decreases to - i,
    {
        s.push(v[i]);
        i = i + 1;
    }
    s
}

/// An optional string as text.
pub open spec fn text_of(s: Option<String>) -> Option<Seq<char>> {
    match s {
        Some(t) => Some(t@),
        None => None,
    }
}

/// Whether two strings hold the same characters.
pub fn same_text(a: &str, b: &str) -> (r: bool)
    ensures
        r == (a@ == b@),
{
    let x = to_chars(a);
    let y = to_chars(b);
    if x.len() != y.len() {
        return false;
    }
    let mut i: usize = 0;
    while i < x.len()
        invariant
            x@ == a@,
            y@ == b@,
            x@.len() == y@.len(),
            i <= x@.len(),
            forall|j: int| 0 <= j < i ==> x@[j] == y@[j],
        decreases x@.len() - i,
    {
        if x[i] != y[i] {
            return false;
        }
        i = i + 1;
    }
    assert(a@ =~= b@);
    true
}

// ---------------------------------------------------------------------------
// UTF-8 offsets
// ---------------------------------------------------------------------------

/// Number of bytes that `s` takes in UTF-8.
pub open spec fn byte_len(s: Seq<char>) -> nat {
    vstd::utf8::encode_utf8(s).len()
}

/// The byte offset at which character `k` of `s` starts.
pub open spec fn byte_offset(s: Seq<char>, k: int) -> nat {
    byte_len(s.take(k))
}

/// The smaller of two numbers.
pub open spec fn min(a: int, b: int) -> int {
    if a <= b {
        a
    } else {
        b
    }
}

/// The larger of two numbers.
pub open spec fn max(a: int, b: int) -> int {
    if a >= b {
        a
    } else {
        b
    }
}

/// Number of bytes that one character takes in UTF-8.
pub open spec fn char_bytes(c: char) -> nat {
    let u = c as u32;
    if u <= 0x7f {
        1
    } else if u <= 0x7ff {
        2
    } else if u <= 0xffff {
        3
    } else {
        4
    }
}

/// One more character takes its own bytes more.
pub proof fn lemma_byte_len_push(s: Seq<char>, c: char)
    ensures
        byte_len(s.push(c)) == byte_len(s) + char_bytes(c),
    decreases s.len(),
{
    vstd::utf8::char_is_scalar(c);
    reveal_with_fuel(vstd::utf8::encode_utf8, 2);
    if s.len() == 0 {
        assert(s.push(c).drop_first() =~= s);
    } else {
        assert(s.push(c).drop_first() =~= s.drop_first().push(c));
        lemma_byte_len_push(s.drop_first(), c);
    }
}

/// Offsets grow with the character index, by at least one byte a character.
pub proof fn lemma_byte_offset_grows(s: Seq<char>, i: int, j: int)
    requires
        0 <= i <= j <= s.len(),
    ensures
        byte_offset(s, i) + (j - i) <= byte_offset(s, j),
    decreases j - i,
{
    if i < j {
        lemma_byte_offset_grows(s, i, j - 1);
        assert(s.take(j) =~= s.take(j - 1).push(s[j - 1]));
        lemma_byte_len_push(s.take(j - 1), s[j - 1]);
    }
}

/// Every character of `s` is an ASCII character.
pub open spec fn ascii(s: Seq<char>) -> bool {
    forall|i: int| 0 <= i < s.len() ==> (#[trigger] s[i]) as u32 <= 0x7f
}

/// ASCII text takes one byte a character, and only such text does.
pub proof fn lemma_ascii_bytes(s: Seq<char>)
    ensures
        byte_len(s) >= s.len(),
        byte_len(s) == s.len() <==> ascii(s),
    decreases s.len(),
{
    if s.len() > 0 {
        let t = s.drop_last();
        assert(s =~= t.push(s.last()));
        lemma_byte_len_push(t, s.last());
        lemma_ascii_bytes(t);
        if ascii(s) {
            assert(s[s.len() - 1] as u32 <= 0x7f);
            assert(ascii(t)) by {
                assert forall|i: int| 0 <= i < t.len() implies (#[trigger] t[i]) as u32 <= 0x7f by {
                    assert(t[i] == s[i]);
                }
            }
        } else {
            let i = choose|i: int| 0 <= i < s.len() && !((#[trigger] s[i]) as u32 <= 0x7f);
            if i < t.len() {
                assert(t[i] == s[i]);
            }
        }
    } else {
        reveal_with_fuel(vstd::utf8::encode_utf8, 1);
    }
}

/// Number of bytes of `c` in UTF-8.
pub fn char_width(c: char) -> (w: usize)
    ensures
        w == char_bytes(c),
{
    let u: u32 = c as u32;
    if u <= 0x7f {
        1
    } else if u <= 0x7ff {
        2
    } else if u <= 0xffff {
        3
    } else {
        4
    }
}

/// Number of characters of `s`.
pub fn char_count(s: &str) -> (n: usize)
    ensures
        n == s@.len(),
{
    s.unicode_len()
}

/// Number of bytes of `s`.
pub fn byte_count(s: &str) -> (n: usize)
    ensures
        n == byte_len(s@),
{
    s.as_bytes().len()
}

/// The byte offset of character `char_idx` of `s`; past the last character, the
/// byte length of `s`.
pub fn char_to_byte_idx(s: &str, char_idx: usize) -> (b: usize)
    ensures
        b == byte_offset(s@, min(char_idx as int, s@.len() as int)),
{
    let total: usize = byte_count(s);
    let v = to_chars(s);
    let mut i: usize = 0;
    let mut b: usize = 0;
    assert(s@.take(0) =~= Seq::<char>::empty());
    while i < v.len() && i < char_idx
        invariant
            v@ == s@,
            total == byte_len(s@),
            i <= v@.len(),
            i <= char_idx,
            b == byte_offset(s@, i as int),
        decreases v@.len() - i,
    {
        proof {
            assert(s@.take(i + 1) =~= s@.take(i as int).push(s@[i as int]));
            lemma_byte_len_push(s@.take(i as int), s@[i as int]);
            lemma_byte_offset_grows(s@, i + 1, s@.len() as int);
            assert(s@.take(s@.len() as int) =~= s@);
        }
        b = b + char_width(v[i]);
        i = i + 1;
    }
    b
}

// ---------------------------------------------------------------------------
// Trimming and prefixes
// ---------------------------------------------------------------------------

/// `s` without its leading white space.
pub open spec fn trimmed_start(s: Seq<char>) -> Seq<char>
    decreases s.len(),
{
    if s.len() > 0 && whitespace(s[0]) {
        trimmed_start(s.drop_first())
    } else {
        s
    }
}

/// `s` without its trailing white space.
pub open spec fn trimmed_end(s: Seq<char>) -> Seq<char>
    decreases s.len(),
{
    if s.len() > 0 && whitespace(s.last()) {
        trimmed_end(s.drop_last())
    } else {
        s
    }
}

/// `s` without white space at either end.
pub open spec fn trimmed(s: Seq<char>) -> Seq<char> {
    trimmed_end(trimmed_start(s))
}

/// `s` starts with `p`.
pub open spec fn has_prefix(s: Seq<char>, p: Seq<char>) -> bool {
    p.len() <= s.len() && s.take(p.len() as int) == p
}

/// `s` without white space at its start.
pub fn trim_start<'a>(s: &'a str) -> (r: &'a str)
    ensures
        r@ == trimmed_start(s@),
{
    let v = to_chars(s);
    let mut i: usize = 0;
    assert(s@.skip(0) =~= s@);
    while i < v.len() && is_whitespace(v[i])
        invariant
            v@ == s@,
            i <= v@.len(),
            trimmed_start(s@) == trimmed_start(s@.skip(i as int)),
        decreases v@.len() - i,
    {
        assert(s@.skip(i as int).drop_first() =~= s@.skip(i + 1));
        i = i + 1;
    }
    assert(s@.subrange(i as int, s@.len() as int) =~= s@.skip(i as int));
    s.substring_char(i, v.len())
}

/// `s` without white space at its end.
pub fn trim_end<'a>(s: &'a str) -> (r: &'a str)
    ensures
        r@ == trimmed_end(s@),
{
    let v = to_chars(s);
    let mut i: usize = v.len();
    assert(s@.take(s@.len() as int) =~= s@);
    while i > 0 && is_whitespace(v[i - 1])
        invariant
            v@ == s@,
            i <= v@.len(),
            trimmed_end(s@) == trimmed_end(s@.take(i as int)),
        decreases i,
    {
        assert(s@.take(i as int).drop_last() =~= s@.take(i - 1));
        i = i - 1;
    }
    assert(s@.subrange(0, i as int) =~= s@.take(i as int));
    s.substring_char(0, i)
}

/// `s` without white space at either end.
pub fn trim<'a>(s: &'a str) -> (r: &'a str)
    ensures
        r@ == trimmed(s@),
{
    trim_end(trim_start(s))
}

proof fn lemma_trimmed_start(s: Seq<char>)
    ensures
        trimmed_start(s).len() > 0 ==> !whitespace(trimmed_start(s)[0]),
    decreases s.len(),
{
    if s.len() > 0 && whitespace(s[0]) {
        lemma_trimmed_start(s.drop_first());
    }
}

proof fn lemma_trimmed_end(s: Seq<char>)
    ensures
        trimmed_end(s).len() <= s.len(),
        trimmed_end(s) == s.take(trimmed_end(s).len() as int),
        trimmed_end(s).len() > 0 ==> !whitespace(trimmed_end(s).last()),
    decreases s.len(),
{
    if s.len() > 0 && whitespace(s.last()) {
        lemma_trimmed_end(s.drop_last());
        let n = trimmed_end(s).len() as int;
        assert(s.drop_last().take(n) =~= s.take(n));
    } else {
        assert(s =~= s.take(s.len() as int));
    }
}

/// Trimmed text has no white space at either end, and trimming it again changes
/// nothing.
pub proof fn law_trim_once(s: Seq<char>)
    ensures
        trimmed(trimmed(s)) == trimmed(s),
        trimmed(s).len() > 0 ==> !whitespace(trimmed(s)[0]) && !whitespace(trimmed(s).last()),
{
    lemma_trimmed_start(s);
    lemma_trimmed_end(trimmed_start(s));
}

/// What follows `prefix` in `s`, if `s` starts with it.
pub fn strip_prefix<'a>(s: &'a str, prefix: &str) -> (r: Option<&'a str>)
    ensures
        r is Some <==> has_prefix(s@, prefix@),
        r matches Some(rest) ==> rest@ == s@.skip(prefix@.len() as int),
{
    let n: usize = char_count(prefix);
    let total: usize = char_count(s);
    if n > total {
        return None;
    }
    let head = s.substring_char(0, n);
    assert(head@ =~= s@.take(n as int));
    if same_text(head, prefix) {
        let rest = s.substring_char(n, total);
        assert(rest@ =~= s@.skip(n as int));
        Some(rest)
    } else {
        None
    }
}

/// Whether `s` starts with `prefix`.
pub fn starts_with(s: &str, prefix: &str) -> (r: bool)
    ensures
        r == has_prefix(s@, prefix@),
{
    strip_prefix(s, prefix).is_some()
}

/// Whether `c` is the last character of `s`.
pub fn ends_with(s: &str, c: char) -> (r: bool)
    ensures
        r == (s@.len() > 0 && s@.last() == c),
{
    let n: usize = char_count(s);
    n > 0 && s.get_char(n - 1) == c
}

// ---------------------------------------------------------------------------
// Searching
// ---------------------------------------------------------------------------

/// `q` stands in `s` from character `k` on.
pub open spec fn occurs_at(s: Seq<char>, q: Seq<char>, k: int) -> bool {
    0 <= k && k + q.len() <= s.len() && s.subrange(k, k + q.len()) == q
}

/// The first place at or after `from` at which `q` stands in `s`.
pub open spec fn find_from(s: Seq<char>, q: Seq<char>, from: int) -> Option<int>
    decreases s.len() + 1 - from,
{
    if from < 0 || from + q.len() > s.len() {
        None
    } else if occurs_at(s, q, from) {
        Some(from)
    } else {
        find_from(s, q, from + 1)
    }
}

/// What the first place is: `q` stands there, and at no earlier place from `from` on.
pub proof fn lemma_find_from(s: Seq<char>, q: Seq<char>, from: int)
    requires
        0 <= from,
    ensures
        match find_from(s, q, from) {
            Some(k) => from <= k && occurs_at(s, q, k) && forall|j: int|
                from <= j < k ==> !#[trigger] occurs_at(s, q, j),
            None => forall|j: int| from <= j ==> !#[trigger] occurs_at(s, q, j),
        },
    decreases s.len() + 1 - from,
{
    if from + q.len() <= s.len() && !occurs_at(s, q, from) {
        lemma_find_from(s, q, from + 1);
    }
}

/// A place is the first one if `q` stands there and at no earlier place.
pub proof fn lemma_find_is(s: Seq<char>, q: Seq<char>, from: int, k: int)
    requires
        0 <= from <= k,
        occurs_at(s, q, k),
        forall|j: int| from <= j < k ==> !#[trigger] occurs_at(s, q, j),
    ensures
        find_from(s, q, from) == Some(k),
{
    lemma_find_from(s, q, from);
}

/// Whether `q` stands in `s` at `k`.
fn stands_at(s: &Vec<char>, q: &Vec<char>, k: usize) -> (r: bool)
    ensures
        r == occurs_at(s@, q@, k as int),
{
    if k > s.len() || q.len() > s.len() - k {
        return false;
    }
    let mut i: usize = 0;
    while i < q.len()
        invariant
            k + q@.len() <= s@.len() <= usize::MAX,
            i <= q@.len(),
            forall|j: int| 0 <= j < i ==> s@[k + j] == q@[j],
        decreases q@.len() - i,
    {
        if s[k + i] != q[i] {
            assert(s@.subrange(k as int, k + q@.len())[i as int] == s@[k + i]);
            return false;
        }
        i = i + 1;
    }
    assert(s@.subrange(k as int, k + q@.len()) =~= q@);
    true
}

/// The first place at or after `from` at which `q` stands in `s`.
pub fn find(s: &Vec<char>, q: &Vec<char>, from: usize) -> (r: Option<usize>)
    ensures
        match r {
            Some(k) => find_from(s@, q@, from as int) == Some(k as int),
            None => find_from(s@, q@, from as int) is None,
        },
{
    let mut k: usize = from;
    while k <= s.len() && q.len() <= s.len() - k
        invariant
            from <= k,
            k > s@.len() ==> k == from,
            find_from(s@, q@, from as int) == find_from(s@, q@, k as int),
        decreases s@.len() + 1 - k,
    {
        if stands_at(s, q, k) {
            return Some(k);
        }
        if k == s.len() {
            assert(find_from(s@, q@, k as int) == find_from(s@, q@, k + 1));
            return None;
        }
        k = k + 1;
    }
    None
}

/// `c`, `n` times.
pub fn repeat_char(c: char, n: usize) -> (s: String)
    ensures
        s@ == Seq::new(n as nat, |i: int| c),
{
    let mut s = String::new();
    let mut i: usize = 0;
    while i < n
        invariant
            i <= n,
            s@ == Seq::new(i as nat, |j: int| c),
        decreases n - i,
    {
        s.push(c);
        i = i + 1;
    }
    s
}

} // verus!
