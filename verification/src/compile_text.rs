use vstd::prelude::*;
use vstd::string::*;

use crate::text::{decimal, nat_to_string};

verus! {

/// Whether `s` ends with `suffix`.
pub open spec fn has_suffix(s: Seq<char>, suffix: Seq<char>) -> bool {
    s.len() >= suffix.len() && s.subrange(s.len() - suffix.len(), s.len() as int) == suffix
}

/// `s` without its last `n` characters.
pub open spec fn cut(s: Seq<char>, n: nat) -> Seq<char> {
    s.subrange(0, s.len() - n)
}

/// `s` with every trailing repetition of a non-empty `suffix` removed.
pub open spec fn trim_all(s: Seq<char>, suffix: Seq<char>) -> Seq<char>
    decreases s.len(),
{
    if suffix.len() > 0 && has_suffix(s, suffix) {
        trim_all(cut(s, suffix.len()), suffix)
    } else {
        s
    }
}

pub fn ends_with(s: &str, suffix: &str) -> (r: bool)
    ensures
        r == has_suffix(s@, suffix@),
{
    let n = s.unicode_len();
    let m = suffix.unicode_len();
    if m > n {
        return false;
    }
    let mut i: usize = 0;
    while i < m
        invariant
            n == s@.len(),
            m == suffix@.len(),
            m <= n,
            i <= m,
            forall|j: int| 0 <= j < i ==> s@[n - m + j] == suffix@[j],
        decreases m - i,
    {
        if s.get_char(n - m + i) != suffix.get_char(i) {
            assert(s@.subrange(n - m, n as int)[i as int] != suffix@[i as int]);
            return false;
        }
        i = i + 1;
    }
    assert(s@.subrange(n - m, n as int) =~= suffix@);
    true
}

/// `s` with its last `n` characters removed.
pub fn drop_end(s: &str, n: usize) -> (r: String)
    requires
        n <= s@.len(),
    ensures
        r@ == cut(s@, n as nat),
{
    let len = s.unicode_len();
    let part = s.substring_char(0, len - n);
    part.to_owned()
}

/// `s` with every trailing repetition of `suffix` removed.
pub fn trim_end_all(s: &str, suffix: &str) -> (r: String)
    ensures
        r@ == trim_all(s@, suffix@),
{
    let mut cur = s.to_owned();
    let m = suffix.unicode_len();
    if m == 0 {
        return cur;
    }
    loop
        invariant
            m == suffix@.len(),
            m > 0,
            trim_all(cur@, suffix@) == trim_all(s@, suffix@),
        decreases cur@.len(),
    {
        if ends_with(cur.as_str(), suffix) {
            let next = drop_end(cur.as_str(), m);
            cur = next;
        } else {
            return cur;
        }
    }
}

pub open spec fn is_ascii_alpha(c: char) -> bool {
    ('a' <= c && c <= 'z') || ('A' <= c && c <= 'Z')
}

pub open spec fn is_digit(c: char) -> bool {
    '0' <= c && c <= '9'
}

/// The position of the first ASCII letter in `s`.
pub open spec fn first_alpha(s: Seq<char>) -> Option<int>
    decreases s.len(),
{
    if s.len() == 0 {
        None
    } else if is_ascii_alpha(s[0]) {
        Some(0)
    } else {
        match first_alpha(s.drop_first()) {
            Some(i) => Some(i + 1),
            None => None,
        }
    }
}

pub proof fn lemma_first_alpha(s: Seq<char>)
    ensures
        match first_alpha(s) {
            Some(i) => 0 <= i < s.len() && is_ascii_alpha(s[i]) && forall|j: int| 0 <= j < i ==> !is_ascii_alpha(s[j]),
            None => forall|j: int| 0 <= j < s.len() ==> !is_ascii_alpha(s[j]),
        },
    decreases s.len(),
{
    if s.len() > 0 {
        lemma_first_alpha(s.drop_first());
        assert forall|j: int| 1 <= j < s.len() implies s[j] == s.drop_first()[j - 1] by {}
    }
}

/// The value of an unsigned decimal numeral (an optional `+`, then digits), as Rust's
/// `usize` parsing reads it.
pub open spec fn digits_value(s: Seq<char>) -> nat
    decreases s.len(),
{
    if s.len() == 0 {
        0
    } else {
        digits_value(s.drop_last()) * 10 + ((s.last() as nat) - ('0' as nat)) as nat
    }
}

pub open spec fn all_digits(s: Seq<char>) -> bool {
    forall|j: int| 0 <= j < s.len() ==> is_digit(s[j])
}

/// What `s.parse::<usize>()` gives: `None` for text that is no numeral or too large.
pub open spec fn parse_usize(s: Seq<char>) -> Option<usize> {
    let body = if s.len() > 0 && s[0] == '+' {
        s.subrange(1, s.len() as int)
    } else {
        s
    };
    if body.len() > 0 && all_digits(body) && digits_value(body) <= usize::MAX {
        Some(digits_value(body) as usize)
    } else {
        None
    }
}

pub fn parse_usize_text(s: &str) -> (r: Option<usize>)
    ensures
        r == parse_usize(s@),
{
    let n = s.unicode_len();
    let mut start: usize = 0;
    if n > 0 && s.get_char(0) == '+' {
        start = 1;
    }
    let ghost body = if s@.len() > 0 && s@[0] == '+' {
        s@.subrange(1, s@.len() as int)
    } else {
        s@
    };
    assert(body =~= s@.subrange(start as int, n as int));
    if start == n {
        return None;
    }
    let mut value: usize = 0;
    let mut i: usize = start;
    while i < n
        invariant
            n == s@.len(),
            start <= i <= n,
            body == s@.subrange(start as int, n as int),
            body == (if s@.len() > 0 && s@[0] == '+' {
                s@.subrange(1, s@.len() as int)
            } else {
                s@
            }),
            all_digits(s@.subrange(start as int, i as int)),
            value == digits_value(s@.subrange(start as int, i as int)),
        decreases n - i,
    {
        let c = s.get_char(i);
        let ghost pre = s@.subrange(start as int, i as int);
        let ghost next = s@.subrange(start as int, i + 1);
        assert(next.drop_last() =~= pre);
        assert(next.last() == c);
        if !('0' <= c && c <= '9') {
            assert(body[i - start] == s@[i as int]);
            assert(!is_digit(body[i - start]));
            assert(!all_digits(body));
            return None;
        }
        let d = (c as u32 - '0' as u32) as usize;
        if value > (usize::MAX - d) / 10 {
            proof {
                assert(body.subrange(0, i + 1 - start) =~= next);
                assert(digits_value(next) == value * 10 + d);
                if all_digits(body) {
                    lemma_digits_grow(body, (i + 1 - start) as int);
                }
                assert(value * 10 + d > usize::MAX) by (nonlinear_arith)
                    requires
                        value > (usize::MAX - d) / 10,
                        d <= 9,
                ;
            }
            return None;
        }
        assert(value * 10 + d <= usize::MAX) by (nonlinear_arith)
            requires
                value <= (usize::MAX - d) / 10,
                d <= 9,
        ;
        value = value * 10 + d;
        i = i + 1;
    }
    assert(s@.subrange(start as int, n as int) =~= body);
    Some(value)
}

/// What `s.parse::<u64>()` gives: `None` for text that is no numeral or too large.
pub open spec fn parse_u64(s: Seq<char>) -> Option<u64> {
    let body = if s.len() > 0 && s[0] == '+' {
        s.subrange(1, s.len() as int)
    } else {
        s
    };
    if body.len() > 0 && all_digits(body) && digits_value(body) <= u64::MAX {
        Some(digits_value(body) as u64)
    } else {
        None
    }
}

pub fn parse_u64_text(s: &str) -> (r: Option<u64>)
    ensures
        r == parse_u64(s@),
{
    let n = s.unicode_len();
    let mut start: usize = 0;
    if n > 0 && s.get_char(0) == '+' {
        start = 1;
    }
    let ghost body = if s@.len() > 0 && s@[0] == '+' {
        s@.subrange(1, s@.len() as int)
    } else {
        s@
    };
    assert(body =~= s@.subrange(start as int, n as int));
    if start == n {
        return None;
    }
    let mut value: u64 = 0;
    let mut i: usize = start;
    while i < n
        invariant
            n == s@.len(),
            start <= i <= n,
            body == s@.subrange(start as int, n as int),
            body == (if s@.len() > 0 && s@[0] == '+' {
                s@.subrange(1, s@.len() as int)
            } else {
                s@
            }),
            all_digits(s@.subrange(start as int, i as int)),
            value == digits_value(s@.subrange(start as int, i as int)),
        decreases n - i,
    {
        let c = s.get_char(i);
        let ghost pre = s@.subrange(start as int, i as int);
        let ghost next = s@.subrange(start as int, i + 1);
        assert(next.drop_last() =~= pre);
        assert(next.last() == c);
        if !('0' <= c && c <= '9') {
            assert(body[i - start] == s@[i as int]);
            assert(!is_digit(body[i - start]));
            assert(!all_digits(body));
            return None;
        }
        let d = (c as u32 - '0' as u32) as u64;
        if value > (u64::MAX - d) / 10 {
            proof {
                assert(body.subrange(0, i + 1 - start) =~= next);
                assert(digits_value(next) == value * 10 + d);
                if all_digits(body) {
                    lemma_digits_grow(body, (i + 1 - start) as int);
                }
                assert(value * 10 + d > u64::MAX) by (nonlinear_arith)
                    requires
                        value > (u64::MAX - d) / 10,
                        d <= 9,
                ;
            }
            return None;
        }
        assert(value * 10 + d <= u64::MAX) by (nonlinear_arith)
            requires
                value <= (u64::MAX - d) / 10,
                d <= 9,
        ;
        value = value * 10 + d;
        i = i + 1;
    }
    assert(s@.subrange(start as int, n as int) =~= body);
    Some(value)
}

/// The value of a prefix of a numeral is no larger than that of the numeral.
proof fn lemma_digits_grow(s: Seq<char>, k: int)
    requires
        0 <= k <= s.len(),
        all_digits(s),
    ensures
        digits_value(s.subrange(0, k)) <= digits_value(s),
    decreases s.len(),
{
    if k < s.len() {
        assert(s.drop_last() =~= s.subrange(0, s.len() - 1));
        if k < s.len() - 1 {
            assert(s.drop_last().subrange(0, k) =~= s.subrange(0, k));
        } else {
            assert(s.drop_last().subrange(0, k) =~= s.drop_last());
        }
        assert(all_digits(s.drop_last()));
        lemma_digits_grow(s.drop_last(), k);
    } else {
        assert(s.subrange(0, k) =~= s);
    }
}

/// A hexadecimal digit.
pub open spec fn hex_digit(d: nat) -> char {
    if d < 10 {
        ((d + ('0' as nat)) as u32) as char
    } else {
        ((d - 10 + ('a' as nat)) as u32) as char
    }
}

/// The last `k` hexadecimal digits of `v`, most significant first.
pub open spec fn hex_digits(v: nat, k: nat) -> Seq<char>
    decreases k,
{
    if k == 0 {
        Seq::empty()
    } else {
        hex_digits(v / 16, (k - 1) as nat).push(hex_digit(v % 16))
    }
}

/// `v` written as `0x` and eight hexadecimal digits.
pub open spec fn hex8(v: u32) -> Seq<char> {
    "0x"@ + hex_digits(v as nat, 8)
}

fn hex_str(d: u32) -> (r: &'static str)
    requires
        d < 16,
    ensures
        r@ == seq![hex_digit(d as nat)],
{
    if d == 0 {
        proof { reveal_strlit("0"); }
        "0"
    } else if d == 1 {
        proof { reveal_strlit("1"); }
        "1"
    } else if d == 2 {
        proof { reveal_strlit("2"); }
        "2"
    } else if d == 3 {
        proof { reveal_strlit("3"); }
        "3"
    } else if d == 4 {
        proof { reveal_strlit("4"); }
        "4"
    } else if d == 5 {
        proof { reveal_strlit("5"); }
        "5"
    } else if d == 6 {
        proof { reveal_strlit("6"); }
        "6"
    } else if d == 7 {
        proof { reveal_strlit("7"); }
        "7"
    } else if d == 8 {
        proof { reveal_strlit("8"); }
        "8"
    } else if d == 9 {
        proof { reveal_strlit("9"); }
        "9"
    } else if d == 10 {
        proof { reveal_strlit("a"); }
        "a"
    } else if d == 11 {
        proof { reveal_strlit("b"); }
        "b"
    } else if d == 12 {
        proof { reveal_strlit("c"); }
        "c"
    } else if d == 13 {
        proof { reveal_strlit("d"); }
        "d"
    } else if d == 14 {
        proof { reveal_strlit("e"); }
        "e"
    } else {
        proof { reveal_strlit("f"); }
        "f"
    }
}

fn append_hex(out: &mut String, v: u32, k: usize)
    requires
        k <= 8,
    ensures
        final(out)@ == old(out)@ + hex_digits(v as nat, k as nat),
    decreases k,
{
    if k > 0 {
        append_hex(out, v / 16, k - 1);
        out.append(hex_str(v % 16));
    }
}

pub fn hex8_text(v: u32) -> (r: String)
    ensures
        r@ == hex8(v),
{
    let mut r = String::from_str("0x");
    proof {
        reveal_strlit("0x");
    }
    append_hex(&mut r, v, 8);
    r
}

/// A `usize` written in decimal.
pub fn usize_text(n: usize) -> (r: String)
    ensures
        r@ == decimal(n as nat),
{
    nat_to_string(n as u128)
}

/// The text of a number literal as an immediate operand: the literal's own text.
pub fn number_string_to_number(s: &str) -> (r: String)
    ensures
        r@ == s@,
{
    s.to_string()
}

/// The length of a string literal's text once its escapes are read: a backslash and the
/// character after it count as one, from position `i` on.
pub open spec fn escaped_length(cs: Seq<char>, i: int) -> nat
    decreases cs.len() + 1 - i,
{
    if i < 0 || i >= cs.len() {
        0
    } else if cs[i] == '\\' {
        1 + escaped_length(cs, i + 2)
    } else {
        1 + escaped_length(cs, i + 1)
    }
}

/// The number of characters that the literal text `s` stands for.
pub fn string_length(s: &str) -> (r: usize)
    ensures
        r == escaped_length(s@, 0),
{
    let n = s.unicode_len();
    let mut res: usize = 0;
    let mut i: usize = 0;
    while i < n
        invariant
            n == s@.len(),
            i <= n,
            res + escaped_length(s@, i as int) == escaped_length(s@, 0),
            res <= i,
        decreases n - i,
    {
        assert(escaped_length(s@, n as int) == 0);
        assert(escaped_length(s@, n + 1) == 0);
        // A backslash takes the character after it along.
        if s.get_char(i) == '\\' && i + 1 < n {
            i = i + 2;
        } else {
            i = i + 1;
        }
        res = res + 1;
    }
    res
}

} // verus!
