//! Decimal numerals: how a number is written, and which texts are read as one.

use vstd::prelude::*;
use vstd::slice::slice_subrange;

verus! {

/// The decimal digit of value `d`.
pub open spec fn digit(d: int) -> char {
    ((48 + d) as u32) as char
}

/// The value of the decimal digit `c`.
pub open spec fn digit_value(c: char) -> int {
    c as u32 - 48
}

/// `n` in decimal, without leading zeros.
pub open spec fn decimal(n: int) -> Seq<char>
    decreases n,
{
    if n < 10 {
        seq![digit(n)]
    } else {
        decimal(n / 10).push(digit(n % 10))
    }
}

/// `n` in decimal, with a minus sign where it is negative.
pub open spec fn signed_decimal(n: int) -> Seq<char> {
    if n < 0 {
        seq!['-'] + decimal(-n)
    } else {
        decimal(n)
    }
}

/// Whether every character is a decimal digit.
pub open spec fn all_digits(s: Seq<char>) -> bool {
    forall|i: int| 0 <= i < s.len() ==> '0' <= #[trigger] s[i] <= '9'
}

/// The number that a text of decimal digits stands for.
pub open spec fn value(s: Seq<char>) -> int
    decreases s.len(),
{
    if s.len() == 0 {
        0
    } else {
        10 * value(s.drop_last()) + digit_value(s.last())
    }
}

/// The text without the plus sign that may begin it.
pub open spec fn strip_plus(s: Seq<char>) -> Seq<char> {
    if s.len() > 0 && s[0] == '+' {
        s.drop_first()
    } else {
        s
    }
}

/// The number that `s` is read as: decimal digits, one at least, behind a
/// plus sign or none, whose value is `max` at most. Any other text is no
/// number.
pub open spec fn read_number(s: Seq<char>, max: int) -> Option<int> {
    let d = strip_plus(s);
    if d.len() > 0 && all_digits(d) && value(d) <= max {
        Some(value(d))
    } else {
        None
    }
}

/// A number is read back from the text it is written as.
pub proof fn law_decimal_round_trip(n: int, max: int)
    requires
        0 <= n <= max,
    ensures
        read_number(decimal(n), max) == Some(n),
{
    lemma_decimal(n);
    assert(strip_plus(decimal(n)) == decimal(n));
}

/// A numeral is made of digits, one at least, and has the value it stands for.
pub proof fn lemma_decimal(n: int)
    requires
        0 <= n,
    ensures
        decimal(n).len() > 0,
        all_digits(decimal(n)),
        value(decimal(n)) == n,
    decreases n,
{
    if n < 10 {
        reveal_with_fuel(value, 2);
        assert(seq![digit(n)].drop_last() =~= Seq::<char>::empty());
        assert(digit_value(digit(n)) == n);
    } else {
        lemma_decimal(n / 10);
        let s = decimal(n / 10);
        assert(s.push(digit(n % 10)).drop_last() =~= s);
        assert(digit_value(digit(n % 10)) == n % 10);
    }
}

/// A text of digits stands for no negative number, and each further digit
/// makes it no smaller.
proof fn lemma_value_prefix(s: Seq<char>, i: int)
    requires
        all_digits(s),
        0 <= i <= s.len(),
    ensures
        0 <= value(s.take(i)) <= value(s),
    decreases s.len() - i, i,
{
    if i < s.len() {
        lemma_value_prefix(s, i + 1);
        assert(s.take(i + 1).drop_last() =~= s.take(i));
        lemma_value_nonneg(s.take(i));
    } else {
        assert(s.take(i) =~= s);
        lemma_value_nonneg(s);
    }
}

/// What is read as a number is neither negative nor above the limit.
pub proof fn lemma_read_number_range(s: Seq<char>, max: int)
    ensures
        read_number(s, max) matches Some(n) ==> 0 <= n <= max,
{
    if all_digits(strip_plus(s)) {
        lemma_value_nonneg(strip_plus(s));
    }
}

proof fn lemma_value_nonneg(s: Seq<char>)
    requires
        all_digits(s),
    ensures
        0 <= value(s),
    decreases s.len(),
{
    if s.len() > 0 {
        assert(all_digits(s.drop_last())) by {
            assert forall|i: int| 0 <= i < s.drop_last().len() implies '0' <= #[trigger] s.drop_last()[i]
                <= '9' by {
                assert(s.drop_last()[i] == s[i]);
            }
        }
        lemma_value_nonneg(s.drop_last());
    }
}

fn digit_char(d: u64) -> (c: char)
    requires
        d < 10,
    ensures
        c == digit(d as int),
{
    match d {
        0 => '0',
        1 => '1',
        2 => '2',
        3 => '3',
        4 => '4',
        5 => '5',
        6 => '6',
        7 => '7',
        8 => '8',
        _ => '9',
    }
}

/// `n` in decimal.
pub fn write_number(n: u64) -> (s: String)
    ensures
        s@ == decimal(n as int),
    decreases n,
{
    if n < 10 {
        let mut s: String = String::new();
        s.push(digit_char(n));
        assert(s@ =~= decimal(n as int));
        s
    } else {
        let mut s: String = write_number(n / 10);
        s.push(digit_char(n % 10));
        s
    }
}

/// `n` in decimal, with a minus sign where it is negative.
pub fn write_signed(n: i64) -> (s: String)
    ensures
        s@ == signed_decimal(n as int),
{
    if n < 0 {
        let mut s: String = String::new();
        s.push('-');
        let d: String = write_number((-(n + 1)) as u64 + 1);
        s.append(d.as_str());
        assert(s@ =~= signed_decimal(n as int));
        s
    } else {
        write_number(n as u64)
    }
}

/// Reads `s` as a decimal number of `max` at most.
pub fn parse_number(s: &[char], max: u64) -> (n: Option<u64>)
    ensures
        match n {
            Some(v) => read_number(s@, max as int) == Some(v as int),
            None => read_number(s@, max as int) is None,
        },
{
    let d: &[char] = if s.len() > 0 && s[0] == '+' {
        slice_subrange(s, 1, s.len())
    } else {
        s
    };
    assert(d@ =~= strip_plus(s@));
    if d.len() == 0 {
        return None;
    }
    let mut v: u64 = 0;
    let mut i: usize = 0;
    assert(d@.take(0) =~= Seq::<char>::empty());
    while i < d.len()
        invariant
            i <= d@.len(),
            d@.len() > 0,
            d@ == strip_plus(s@),
            v <= max,
            v == value(d@.take(i as int)),
            forall|j: int| 0 <= j < i ==> '0' <= #[trigger] d@[j] <= '9',
        decreases d@.len() - i,
    {
        let c: char = d[i];
        if c < '0' || c > '9' {
            assert(!all_digits(d@));
            return None;
        }
        let x: u64 = (c as u32 - 48) as u64;
        assert(d@.take(i + 1).drop_last() =~= d@.take(i as int));
        if x > max || v > (max - x) / 10 {
            assert(value(d@.take(i + 1)) > max);
            proof {
                if all_digits(d@) {
                    lemma_value_prefix(d@, i + 1);
                }
            }
            return None;
        }
        v = v * 10 + x;
        i = i + 1;
    }
    assert(d@.take(d@.len() as int) =~= d@);
    assert(all_digits(d@));
    Some(v)
}

}
