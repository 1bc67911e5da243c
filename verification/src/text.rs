//! Character-level text: decimal and hexadecimal numerals, the unsigned
//! integer grammar of `u8::from_str`, and searching and splitting strings.

use vstd::prelude::*;

verus! {

/// An ASCII decimal digit.
pub open spec fn is_digit(c: char) -> bool {
    '0' <= c && c <= '9'
}

/// The ASCII digit for `0 <= d < 10`.
pub open spec fn digit_char(d: int) -> char {
    (d + 48) as char
}

/// The value of an ASCII digit.
pub open spec fn digit_value(c: char) -> int {
    c as int - 48
}

/// Every character is an ASCII digit.
pub open spec fn all_digits(s: Seq<char>) -> bool {
    forall|i: int| 0 <= i < s.len() ==> #[trigger] is_digit(s[i])
}

/// The number that a string of digits denotes (most significant first).
pub open spec fn digits_value(s: Seq<char>) -> nat
    decreases s.len(),
{
    if s.len() == 0 {
        0
    } else {
        (digits_value(s.drop_last()) * 10 + digit_value(s.last())) as nat
    }
}

/// The shortest decimal numeral of `n`, as `Display` writes it.
pub open spec fn decimal(n: nat) -> Seq<char>
    decreases n,
{
    if n < 10 {
        seq![digit_char(n as int)]
    } else {
        decimal(n / 10).push(digit_char((n % 10) as int))
    }
}

/// The lowercase hexadecimal digit for `0 <= d < 16`.
pub open spec fn hex_digit_char(d: int) -> char {
    if d < 10 {
        (d + 48) as char
    } else {
        (d + 87) as char
    }
}

/// A byte as two lowercase hexadecimal digits (`{:02x}`).
pub open spec fn hex_byte(b: u8) -> Seq<char> {
    seq![hex_digit_char(b as int / 16), hex_digit_char(b as int % 16)]
}

/// What `u8::from_str` accepts: an optional `+`, then one or more ASCII
/// digits whose value is at most 255 (leading zeros allowed).
pub open spec fn parse_u8_text(s: Seq<char>) -> Option<u8> {
    let d = if s.len() > 0 && s[0] == '+' {
        s.drop_first()
    } else {
        s
    };
    if d.len() > 0 && all_digits(d) && digits_value(d) <= 255 {
        Some(digits_value(d) as u8)
    } else {
        None
    }
}

/// The index of the first `c` in `s`, if any.
pub open spec fn find_char(s: Seq<char>, c: char) -> Option<int>
    decreases s.len(),
{
    if s.len() == 0 {
        None
    } else if s[0] == c {
        Some(0)
    } else {
        match find_char(s.drop_first(), c) {
            Some(i) => Some(i + 1),
            None => None,
        }
    }
}

/// `s` split around its first `c`, as `str::split_once` does.
pub open spec fn split_once_text(s: Seq<char>, c: char) -> Option<(Seq<char>, Seq<char>)> {
    match find_char(s, c) {
        Some(i) => Some((s.take(i), s.skip(i + 1))),
        None => None,
    }
}

/// `p` is a prefix of `s`.
pub open spec fn has_prefix(s: Seq<char>, p: Seq<char>) -> bool {
    p.len() <= s.len() && s.take(p.len() as int) == p
}

/// Appends one character to a string: `String::push`.
#[verifier::external_body]
pub(crate) fn push_char(s: &mut String, c: char)
    ensures
        final(s)@ == old(s)@.push(c),
{
    s.push(c)
}

/// A string holding a copy of `t`.
pub(crate) fn to_owned_string(t: &str) -> (s: String)
    ensures
        s@ == t@,
{
    t.to_owned()
}

/// Appends the decimal numeral of `n`.
pub fn push_decimal(s: &mut String, n: u64)
    ensures
        final(s)@ == old(s)@ + decimal(n as nat),
    decreases n,
{
    if n >= 10 {
        push_decimal(s, n / 10);
    }
    let d = (n % 10) as u8;
    push_char(s, (48u8 + d) as char);
    proof {
        if n >= 10 {
            assert(decimal(n as nat) == decimal((n / 10) as nat).push(digit_char((n % 10) as int)));
        }
    }
}

/// The decimal numeral of `n`.
pub fn decimal_string(n: u64) -> (s: String)
    ensures
        s@ == decimal(n as nat),
{
    let mut s = String::new();
    push_decimal(&mut s, n);
    proof {
        assert(Seq::<char>::empty() + decimal(n as nat) == decimal(n as nat));
    }
    s
}

/// Appends a byte as two lowercase hexadecimal digits.
pub fn push_hex_byte(s: &mut String, b: u8)
    ensures
        final(s)@ == old(s)@ + hex_byte(b),
{
    let hi = b / 16;
    let lo = b % 16;
    let c1 = if hi < 10 {
        (48u8 + hi) as char
    } else {
        (87u8 + hi) as char
    };
    let c2 = if lo < 10 {
        (48u8 + lo) as char
    } else {
        (87u8 + lo) as char
    };
    push_char(s, c1);
    push_char(s, c2);
    proof {
        assert(old(s)@.push(c1).push(c2) == old(s)@ + hex_byte(b));
    }
}

/// The position of the first `c` in `s`.
pub fn find_first(s: &str, c: char) -> (r: Option<usize>)
    ensures
        match find_char(s@, c) {
            Some(i) => r == Some(i as usize),
            None => r is None,
        },
{
    let n = s.unicode_len();
    let mut i: usize = 0;
    proof {
        assert(s@.skip(0) == s@);
    }
    while i < n
        invariant
            n == s@.len(),
            i <= n,
            find_char(s@, c) == (match find_char(s@.skip(i as int), c) {
                Some(j) => Some(j + i),
                None => None::<int>,
            }),
        decreases n - i,
    {
        proof {
            assert(s@.skip(i as int).drop_first() == s@.skip(i + 1));
            assert(s@.skip(i as int)[0] == s@[i as int]);
        }
        if s.get_char(i) == c {
            return Some(i);
        }
        i = i + 1;
    }
    proof {
        assert(s@.skip(n as int).len() == 0);
    }
    None
}

proof fn lemma_find_char_found(s: Seq<char>, c: char)
    ensures
        match find_char(s, c) {
            Some(i) => 0 <= i < s.len() && s[i] == c && forall|j: int|
                0 <= j < i ==> #[trigger] s[j] != c,
            None => forall|j: int| 0 <= j < s.len() ==> #[trigger] s[j] != c,
        },
    decreases s.len(),
{
    if s.len() > 0 && s[0] != c {
        lemma_find_char_found(s.drop_first(), c);
        assert forall|j: int| 0 < j < s.len() implies s[j] == s.drop_first()[j - 1] by {}
    }
}

/// `s` split around its first `c`.
pub fn split_once<'a>(s: &'a str, c: char) -> (r: Option<(&'a str, &'a str)>)
    ensures
        match split_once_text(s@, c) {
            Some((a, b)) => r matches Some((x, y)) && x@ == a && y@ == b,
            None => r is None,
        },
{
    proof {
        lemma_find_char_found(s@, c);
    }
    match find_first(s, c) {
        Some(i) => {
            let n = s.unicode_len();
            let a = s.substring_char(0, i);
            let b = s.substring_char(i + 1, n);
            proof {
                assert(s@.subrange(i + 1, n as int) == s@.skip(i + 1));
                assert(s@.subrange(0, i as int) == s@.take(i as int));
            }
            Some((a, b))
        },
        None => None,
    }
}

/// Whether `s` starts with `p`.
pub fn starts_with(s: &str, p: &str) -> (r: bool)
    ensures
        r == has_prefix(s@, p@),
{
    let n = s.unicode_len();
    let m = p.unicode_len();
    if m > n {
        return false;
    }
    let mut i: usize = 0;
    while i < m
        invariant
            n == s@.len(),
            m == p@.len(),
            m <= n,
            i <= m,
            forall|j: int| 0 <= j < i ==> s@[j] == p@[j],
        decreases m - i,
    {
        if s.get_char(i) != p.get_char(i) {
            proof {
                assert(s@.take(m as int)[i as int] != p@[i as int]);
            }
            return false;
        }
        i = i + 1;
    }
    proof {
        assert(s@.take(m as int) == p@);
    }
    true
}

proof fn lemma_digits_value_monotone(s: Seq<char>, k: int)
    requires
        0 <= k <= s.len(),
        all_digits(s),
    ensures
        digits_value(s.take(k)) <= digits_value(s),
    decreases s.len() - k,
{
    if k < s.len() {
        lemma_digits_value_monotone(s, k + 1);
        assert(s.take(k + 1).drop_last() == s.take(k));
        assert(s.take(k + 1).last() == s[k]);
        assert(is_digit(s[k]));
        assert(digits_value(s.take(k + 1)) == digits_value(s.take(k)) * 10 + digit_value(s[k]));
    } else {
        assert(s.take(k) == s);
    }
}

/// Parses an unsigned byte the way `u8::from_str` does.
pub fn parse_u8(s: &str) -> (r: Option<u8>)
    ensures
        r == parse_u8_text(s@),
{
    let n = s.unicode_len();
    let start: usize = if n > 0 && s.get_char(0) == '+' {
        1
    } else {
        0
    };
    let ghost d = if s@.len() > 0 && s@[0] == '+' {
        s@.drop_first()
    } else {
        s@
    };
    proof {
        assert(d == s@.skip(start as int));
    }
    if start == n {
        return None;
    }
    let mut value: u32 = 0;
    let mut i: usize = start;
    while i < n
        invariant
            n == s@.len(),
            start <= i <= n,
            d == s@.skip(start as int),
            d.len() > 0,
            parse_u8_text(s@) == (if all_digits(d) && digits_value(d) <= 255 {
                Some(digits_value(d) as u8)
            } else {
                None
            }),
            all_digits(d.take(i - start)),
            value == digits_value(d.take(i - start)),
            value <= 255,
        decreases n - i,
    {
        let c = s.get_char(i);
        proof {
            assert(d.take(i - start + 1).drop_last() == d.take(i - start));
            assert(d.take(i - start + 1).last() == c);
        }
        proof {
            assert(d[i - start] == c);
        }
        if !('0' <= c && c <= '9') {
            proof {
                assert(!is_digit(d[i - start]));
            }
            return None;
        }
        value = value * 10 + (c as u32 - 48);
        proof {
            assert(digit_value(c) == c as u32 - 48);
            assert(value == digits_value(d.take(i - start + 1)));
        }
        if value > 255 {
            proof {
                assert(all_digits(d.take(i - start + 1)));
                if all_digits(d) {
                    lemma_digits_value_monotone(d, i - start + 1);
                }
            }
            return None;
        }
        i = i + 1;
    }
    proof {
        assert(d.take(n - start) == d);
    }
    Some(value as u8)
}

proof fn lemma_decimal_facts(n: nat)
    ensures
        decimal(n).len() >= 1,
        all_digits(decimal(n)),
        digits_value(decimal(n)) == n,
        decimal(n).len() > 1 ==> decimal(n)[0] != '0',
        n < 10 ==> decimal(n).len() == 1,
        n >= 10 ==> decimal(n).len() >= 2,
        n < 100 ==> decimal(n).len() <= 2,
        n < 1000 ==> decimal(n).len() <= 3,
    decreases n,
{
    if n >= 10 {
        lemma_decimal_facts(n / 10);
        let p = decimal(n / 10);
        let k = (n % 10) as int;
        assert(decimal(n).drop_last() == p);
        assert(decimal(n).last() == digit_char(k));
        assert(digit_value(digit_char(k)) == k);
        assert(is_digit(digit_char(k)));
        assert(decimal(n)[0] == p[0]);
        assert(n / 10 * 10 + n % 10 == n);
        assert(digits_value(decimal(n)) == digits_value(p) * 10 + digit_value(digit_char(k)));
        assert forall|i: int| 0 <= i < decimal(n).len() implies #[trigger] is_digit(decimal(n)[i]) by {
            if i < p.len() {
                assert(decimal(n)[i] == p[i]);
            }
        }
        if n / 10 < 10 {
            assert(p[0] == digit_char((n / 10) as int));
        }
    } else {
        assert(digit_value(digit_char(n as int)) == n);
        assert(is_digit(decimal(n)[0]));
        assert(decimal(n).drop_last() == Seq::<char>::empty());
        assert(digits_value(Seq::<char>::empty()) == 0);
        assert(digits_value(decimal(n)) == digits_value(decimal(n).drop_last()) * 10 + digit_value(decimal(n).last()));
    }
}

/// Facts about decimal numerals that parsing relies on: they are non-empty
/// strings of digits that denote `n`, without a leading zero, and at most
/// three characters long below 1000.
pub proof fn lemma_decimal(n: nat)
    ensures
        decimal(n).len() >= 1,
        all_digits(decimal(n)),
        digits_value(decimal(n)) == n,
        decimal(n).len() > 1 ==> decimal(n)[0] != '0',
        n < 1000 ==> decimal(n).len() <= 3,
{
    lemma_decimal_facts(n);
}

/// Reading back the numeral that `Display` writes for a byte gives the byte.
pub proof fn law_u8_text_round_trip(b: u8)
    ensures
        parse_u8_text(decimal(b as nat)) == Some(b),
{
    lemma_decimal_facts(b as nat);
    assert(is_digit(decimal(b as nat)[0]));
    assert(decimal(b as nat)[0] != '+');
}

/// The error of a text that is not an unsigned integer in range.
#[derive(Debug, Clone, Copy, PartialEq, Eq, Structural)]
pub struct ParseIntError;

/// The number of one bits of `x`.
pub open spec fn count_ones(x: nat) -> nat
    decreases x,
{
    if x == 0 {
        0
    } else {
        (x % 2 + count_ones(x / 2)) as nat
    }
}

/// `2` to the power `k`.
pub open spec fn pow2(k: nat) -> nat
    decreases k,
{
    if k == 0 {
        1
    } else {
        2 * pow2((k - 1) as nat)
    }
}

/// A number below `2^k` has at most `k` one bits.
pub proof fn lemma_count_ones_bound(x: nat, k: nat)
    requires
        x < pow2(k),
    ensures
        count_ones(x) <= k,
    decreases k,
{
    if x > 0 && k > 0 {
        lemma_count_ones_bound(x / 2, (k - 1) as nat);
    }
}

/// The number of one bits of a 32-bit word: `u32::count_ones`.
pub fn count_ones_u32(x: u32) -> (r: u32)
    ensures
        r == count_ones(x as nat),
        r <= 32,
{
    proof {
        reveal_with_fuel(pow2, 33);
        assert(pow2(32) == 0x1_0000_0000);
        lemma_count_ones_bound(x as nat, 32);
    }
    let mut y = x;
    let mut c: u32 = 0;
    while y != 0
        invariant
            c + count_ones(y as nat) == count_ones(x as nat),
            count_ones(x as nat) <= 32,
        decreases y,
    {
        c = c + y % 2;
        y = y / 2;
    }
    c
}

} // verus!
