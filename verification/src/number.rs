//! Decimal text of integers: reading it and writing it.

use vstd::prelude::*;
use crate::text::chars_of;

verus! {

/// Whether `c` is one of the ten ASCII digits.
pub open spec fn is_digit(c: char) -> bool {
    '0' <= c <= '9'
}

/// The number that the digit `c` stands for.
pub open spec fn digit_value(c: char) -> int {
    c as int - '0' as int
}

/// The digit that stands for `d`, for `0 <= d <= 9`.
pub open spec fn digit_char(d: int) -> char {
    if d == 0 {
        '0'
    } else if d == 1 {
        '1'
    } else if d == 2 {
        '2'
    } else if d == 3 {
        '3'
    } else if d == 4 {
        '4'
    } else if d == 5 {
        '5'
    } else if d == 6 {
        '6'
    } else if d == 7 {
        '7'
    } else if d == 8 {
        '8'
    } else {
        '9'
    }
}

/// Whether every character of `s` is a digit.
pub open spec fn all_digits(s: Seq<char>) -> bool {
    forall|i: int| 0 <= i < s.len() ==> is_digit(#[trigger] s[i])
}

/// The number written by the digits `s`, most significant first.
pub open spec fn digits_value(s: Seq<char>) -> int
    decreases s.len(),
{
    if s.len() == 0 {
        0
    } else {
        digits_value(s.drop_last()) * 10 + digit_value(s.last())
    }
}

/// The digits of `s` once an optional sign is taken off its front.
pub open spec fn unsigned_part(s: Seq<char>) -> Seq<char> {
    if s.len() > 0 && (s[0] == '-' || s[0] == '+') {
        s.drop_first()
    } else {
        s
    }
}

/// The integer that `s` denotes: an optional `+` or `-`, then one or more
/// digits and nothing else, with a value that fits in 128 signed bits.
pub open spec fn parse_integer_spec(s: Seq<char>) -> Option<int> {
    let body = unsigned_part(s);
    let magnitude = digits_value(body);
    let value = if s.len() > 0 && s[0] == '-' {
        -magnitude
    } else {
        magnitude
    };
    if body.len() == 0 || !all_digits(body) || value < i128::MIN || value > i128::MAX {
        None
    } else {
        Some(value)
    }
}

/// The digits of `n`, most significant first, without leading zeros.
pub open spec fn digits_of(n: nat) -> Seq<char>
    decreases n,
{
    if n < 10 {
        seq![digit_char(n as int)]
    } else {
        digits_of(n / 10).push(digit_char((n % 10) as int))
    }
}

/// The decimal text of `v`: a `-` for a negative number, then its digits.
pub open spec fn integer_text(v: int) -> Seq<char> {
    if v < 0 {
        seq!['-'] + digits_of((-v) as nat)
    } else {
        digits_of(v as nat)
    }
}

pub proof fn lemma_digits_value_grows(s: Seq<char>, i: int)
    requires
        all_digits(s),
        0 <= i <= s.len(),
    ensures
        0 <= digits_value(s.take(i)) <= digits_value(s),
    decreases s.len() - i,
{
    if i == s.len() {
        assert(s.take(i) =~= s);
        lemma_digits_value_nonnegative(s);
    } else {
        lemma_digits_value_grows(s, i + 1);
        let t = s.take(i + 1);
        assert(t.drop_last() =~= s.take(i));
        assert(is_digit(s[i]));
        assert(t.last() == s[i]);
        lemma_digits_value_nonnegative(s.take(i));
    }
}

pub proof fn lemma_digits_value_nonnegative(s: Seq<char>)
    requires
        all_digits(s),
    ensures
        0 <= digits_value(s),
    decreases s.len(),
{
    if s.len() > 0 {
        assert(is_digit(s.last()));
        lemma_digits_value_nonnegative(s.drop_last());
    }
}

/// The digits written for `n` are digits, and read back as `n`.
pub proof fn lemma_digits_round_trip(n: nat)
    ensures
        digits_of(n).len() >= 1,
        all_digits(digits_of(n)),
        digits_value(digits_of(n)) == n,
    decreases n,
{
    if n < 10 {
        let s = digits_of(n);
        assert(s.drop_last() =~= Seq::<char>::empty());
        assert(digits_value(s.drop_last()) == 0);
    } else {
        lemma_digits_round_trip(n / 10);
        let s = digits_of(n);
        assert(s.drop_last() =~= digits_of(n / 10));
        assert(s.last() == digit_char((n % 10) as int));
    }
}

/// Reading the decimal text of a 128-bit integer gives that integer back.
pub proof fn lemma_integer_round_trip(v: int)
    requires
        i128::MIN <= v <= i128::MAX,
    ensures
        parse_integer_spec(integer_text(v)) == Some(v),
{
    let s = integer_text(v);
    if v < 0 {
        let d = digits_of((-v) as nat);
        lemma_digits_round_trip((-v) as nat);
        assert(s[0] == '-');
        assert(s.drop_first() =~= d);
    } else {
        lemma_digits_round_trip(v as nat);
        assert(is_digit(s[0]));
    }
}

/// The digit for a value below ten.
fn digit_for(d: u8) -> (c: char)
    requires
        d < 10,
    ensures
        c == digit_char(d as int),
        is_digit(c),
        digit_value(c) == d,
{
    if d == 0 {
        '0'
    } else if d == 1 {
        '1'
    } else if d == 2 {
        '2'
    } else if d == 3 {
        '3'
    } else if d == 4 {
        '4'
    } else if d == 5 {
        '5'
    } else if d == 6 {
        '6'
    } else if d == 7 {
        '7'
    } else if d == 8 {
        '8'
    } else {
        '9'
    }
}

/// The value of a digit character, or `None` for any other character.
fn value_of_digit(c: char) -> (d: Option<i128>)
    ensures
        d is Some <==> is_digit(c),
        d matches Some(v) ==> v == digit_value(c),
{
    if c == '0' {
        Some(0)
    } else if c == '1' {
        Some(1)
    } else if c == '2' {
        Some(2)
    } else if c == '3' {
        Some(3)
    } else if c == '4' {
        Some(4)
    } else if c == '5' {
        Some(5)
    } else if c == '6' {
        Some(6)
    } else if c == '7' {
        Some(7)
    } else if c == '8' {
        Some(8)
    } else if c == '9' {
        Some(9)
    } else {
        None
    }
}

/// Reads a decimal integer: an optional sign, then digits only.
pub fn parse_integer(s: &str) -> (r: Option<i128>)
    ensures
        r is Some <==> parse_integer_spec(s@) is Some,
        r matches Some(v) ==> parse_integer_spec(s@) == Some(v as int),
{
    let chars = chars_of(s);
    let n = chars.len();
    let negative = n > 0 && chars[0] == '-';
    let first: usize = if n > 0 && (chars[0] == '-' || chars[0] == '+') {
        1
    } else {
        0
    };
    let ghost body = unsigned_part(s@);
    assert(body =~= s@.subrange(first as int, n as int));
    if first == n {
        return None;
    }
    // Accumulate on the negative side, whose range is the larger one.
    let mut acc: i128 = 0;
    let mut i: usize = first;
    assert(body.take(0) =~= Seq::<char>::empty());
    while i < n
        invariant
            chars@ == s@,
            n == chars@.len(),
            first <= i <= n,
            body == unsigned_part(s@),
            body == s@.subrange(first as int, n as int),
            negative == (s@.len() > 0 && s@[0] == '-'),
            all_digits(body.take(i - first)),
            negative ==> acc == -digits_value(body.take(i - first)),
            !negative ==> acc == digits_value(body.take(i - first)),
        decreases n - i,
    {
        let ghost done = body.take(i - first);
        let ghost next = body.take(i - first + 1);
        assert(next.drop_last() =~= done);
        assert(next.last() == s@[i as int]);
        let d = match value_of_digit(chars[i]) {
            Some(d) => d,
            None => {
                assert(!is_digit(body[i - first]));
                return None;
            },
        };
        assert(all_digits(next)) by {
            assert forall|j: int| 0 <= j < next.len() implies is_digit(#[trigger] next[j]) by {
                if j < done.len() {
                    assert(next[j] == done[j]);
                }
            }
        }
        let step = match acc.checked_mul(10) {
            Some(m) => if negative {
                m.checked_sub(d)
            } else {
                m.checked_add(d)
            },
            None => None,
        };
        match step {
            Some(v) => {
                acc = v;
            },
            None => {
                proof {
                    // The value already left the range, and more digits only
                    // move it further out.
                    if all_digits(body) {
                        lemma_digits_value_grows(body, i - first + 1);
                        lemma_digits_value_nonnegative(done);
                        assert(digits_value(next) == digits_value(done) * 10 + d);
                        assert(digits_value(next) > i128::MAX || -digits_value(next) < i128::MIN);
                    }
                }
                return None;
            },
        }
        i += 1;
    }
    assert(body.take(n - first) =~= body);
    Some(acc)
}

/// Writes `v` in decimal.
pub fn integer_to_string(v: i128) -> (r: String)
    ensures
        r@ == integer_text(v as int),
{
    let mut magnitude: u128 = if v >= 0 {
        v as u128
    } else {
        (-(v + 1)) as u128 + 1
    };
    let ghost total = magnitude as nat;
    // Least significant digit first.
    let mut reversed: Vec<char> = Vec::new();
    while magnitude >= 10
        invariant
            digits_of(total) == digits_of(magnitude as nat) + reversed@.reverse(),
        decreases magnitude,
    {
        let c = digit_for((magnitude % 10) as u8);
        let ghost before = reversed@;
        reversed.push(c);
        assert(reversed@.reverse() =~= seq![c] + before.reverse());
        assert(digits_of(magnitude as nat) == digits_of((magnitude / 10) as nat).push(c));
        assert(digits_of((magnitude / 10) as nat).push(c) + before.reverse() =~= digits_of(
            (magnitude / 10) as nat,
        ) + (seq![c] + before.reverse()));
        magnitude = magnitude / 10;
    }
    let c = digit_for(magnitude as u8);
    let ghost before = reversed@;
    reversed.push(c);
    assert(reversed@.reverse() =~= seq![c] + before.reverse());
    assert(digits_of(total) =~= reversed@.reverse());

    let mut out = String::new();
    if v < 0 {
        out.push('-');
    }
    let ghost sign = out@;
    let mut k: usize = reversed.len();
    while k > 0
        invariant
            k <= reversed@.len(),
            out@ == sign + reversed@.reverse().take(reversed@.len() - k),
        decreases k,
    {
        k -= 1;
        let ghost before = out@;
        out.push(reversed[k]);
        assert(reversed@.reverse().take(reversed@.len() - k) =~= reversed@.reverse().take(
            reversed@.len() - k - 1,
        ).push(reversed@[k as int]));
    }
    assert(reversed@.reverse().take(reversed@.len() as int) =~= reversed@.reverse());
    assert(out@ =~= integer_text(v as int));
    out
}

} // verus!
