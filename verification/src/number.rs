//! Numbers in decimal: writing them and reading them.

use crate::text;
use vstd::prelude::*;

verus! {

/// The decimal digit for a number below ten.
pub open spec fn digit(d: nat) -> char {
    (48 + d) as char
}

/// A number in decimal.
pub open spec fn decimal(n: nat) -> Seq<char>
    decreases n,
{
    if n < 10 {
        seq![digit(n)]
    } else {
        decimal(n / 10).push(digit(n % 10))
    }
}

/// A number in decimal.
pub fn number_text(n: usize) -> (s: String)
    ensures
        s@ == decimal(n as nat),
    decreases n,
{
    let d: u8 = (n % 10) as u8;
    let c = (48 + d) as char;
    if n < 10 {
        let mut s = String::new();
        s.push(c);
        assert(s@ =~= seq![digit(n as nat)]);
        s
    } else {
        let mut s = number_text(n / 10);
        s.push(c);
        s
    }
}

/// The value of a decimal digit.
pub open spec fn digit_value(c: char) -> Option<nat> {
    let u = c as u32 as nat;
    if 48 <= u <= 57 {
        Some((u - 48) as nat)
    } else {
        None
    }
}

/// The number that decimal digits stand for; none if one of them is no digit.
pub open spec fn digits_value(s: Seq<char>) -> Option<nat>
    decreases s.len(),
{
    if s.len() == 0 {
        Some(0)
    } else {
        match (digits_value(s.drop_last()), digit_value(s.last())) {
            (Some(high), Some(low)) => Some(10 * high + low),
            _ => None,
        }
    }
}

/// The digits of a number that may have a plus sign before it.
pub open spec fn without_sign(s: Seq<char>) -> Seq<char> {
    if s.len() > 0 && s[0] == '+' {
        s.drop_first()
    } else {
        s
    }
}

/// The number that `s` writes in decimal, if it writes one that the machine can hold.
pub open spec fn number_in(s: Seq<char>) -> Option<nat> {
    let digits = without_sign(s);
    if digits.len() == 0 {
        None
    } else {
        match digits_value(digits) {
            Some(n) => if n <= usize::MAX {
                Some(n)
            } else {
                None
            },
            None => None,
        }
    }
}

proof fn lemma_digits_value_prefix(s: Seq<char>, i: int)
    requires
        0 <= i <= s.len(),
    ensures
        digits_value(s) matches Some(n) ==> digits_value(s.take(i)) is Some && digits_value(
            s.take(i),
        )->0 <= n,
    decreases s.len() - i,
{
    if i == s.len() {
        assert(s.take(i) =~= s);
    } else {
        lemma_digits_value_prefix(s, i + 1);
        assert(s.take(i + 1).drop_last() =~= s.take(i));
    }
}

/// Reads a number in decimal.
pub fn parse_number(s: &str) -> (r: Option<usize>)
    ensures
        match r {
            Some(n) => number_in(s@) == Some(n as nat),
            None => number_in(s@) is None,
        },
{
    let v = text::to_chars(s);
    let start: usize = if v.len() > 0 && v[0] == '+' {
        1
    } else {
        0
    };
    if start == v.len() {
        return None;
    }
    let ghost digits = without_sign(s@);
    assert(digits =~= s@.skip(start as int));
    let mut n: usize = 0;
    let mut i: usize = start;
    assert(digits.take(0) =~= Seq::<char>::empty());
    while i < v.len()
        invariant
            v@ == s@,
            digits == without_sign(s@),
            digits == s@.skip(start as int),
            digits.len() > 0,
            start <= i <= v@.len(),
            digits_value(digits.take(i - start)) == Some(n as nat),
        decreases v@.len() - i,
    {
        let u: u32 = v[i] as u32;
        let ghost more = digits.take(i + 1 - start);
        proof {
            assert(more.drop_last() =~= digits.take(i - start));
            assert(more.last() == v@[i as int]);
            lemma_digits_value_prefix(digits, i + 1 - start);
        }
        if u < 48 || u > 57 {
            return None;
        }
        let d: usize = (u - 48) as usize;
        if n > usize::MAX / 10 || 10 * n > usize::MAX - d {
            return None;
        }
        n = 10 * n + d;
        i = i + 1;
    }
    assert(digits.take(i - start) =~= digits);
    Some(n)
}

/// A number in decimal is a row of digits, not empty, with the number as its value.
pub proof fn lemma_decimal(n: nat)
    ensures
        decimal(n).len() > 0,
        digits_value(decimal(n)) == Some(n),
        48 <= decimal(n)[0] as u32 <= 57,
        48 <= decimal(n).last() as u32 <= 57,
    decreases n,
{
    let s = decimal(n);
    reveal_with_fuel(digits_value, 2);
    assert(s.last() == digit(n % 10));
    assert(digit(n % 10) as u32 == 48 + n % 10);
    if n < 10 {
        assert(s.drop_last() =~= Seq::<char>::empty());
    } else {
        lemma_decimal(n / 10);
        assert(s.drop_last() =~= decimal(n / 10));
        assert(s[0] == decimal(n / 10)[0]);
    }
}

/// Reading back what was written: a number in decimal is read as that number.
pub proof fn law_number_reads_back(n: nat)
    requires
        n <= usize::MAX,
    ensures
        number_in(decimal(n)) == Some(n),
{
    lemma_decimal(n);
}

} // verus!
