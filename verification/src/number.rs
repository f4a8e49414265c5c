//! Decimal numbers, written and read.

use vstd::prelude::*;

verus! {

/// The character of one decimal digit.
pub open spec fn digit_char(d: int) -> char
    recommends
        0 <= d <= 9,
{
    ('0' as int + d) as char
}

/// Whether `c` is one of the ten ASCII digits.
pub open spec fn is_digit(c: char) -> bool {
    '0' <= c <= '9'
}

/// The value of one decimal digit.
pub open spec fn digit_value(c: char) -> int {
    c as int - '0' as int
}

/// A number in decimal notation, without leading zeros.
pub open spec fn decimal(n: nat) -> Seq<char>
    decreases n,
{
    if n < 10 {
        seq![digit_char(n as int)]
    } else {
        decimal(n / 10).push(digit_char((n % 10) as int))
    }
}

/// The number that a row of digits denotes; 0 for no digits.
pub open spec fn digits_value(digits: Seq<char>) -> int
    decreases digits.len(),
{
    if digits.len() == 0 {
        0
    } else {
        10 * digits_value(digits.drop_last()) + digit_value(digits.last())
    }
}

/// Appends `n` in decimal notation to `out`.
pub fn push_decimal(out: &mut String, n: usize)
    ensures
        final(out)@ == old(out)@ + decimal(n as nat),
    decreases n,
{
    if n >= 10 {
        push_decimal(out, n / 10);
    }
    let c = match n % 10 {
        0 => '0',
        1 => '1',
        2 => '2',
        3 => '3',
        4 => '4',
        5 => '5',
        6 => '6',
        7 => '7',
        8 => '8',
        _ => '9',
    };
    assert(c == digit_char((n % 10) as int));
    out.push(c);
    assert(out@ =~= old(out)@ + decimal(n as nat));
}

/// `n` in decimal notation.
pub fn decimal_text(n: usize) -> (text: String)
    ensures
        text@ == decimal(n as nat),
{
    let mut text = String::new();
    push_decimal(&mut text, n);
    assert(text@ =~= decimal(n as nat));
    text
}

/// How many digits `s` begins with.
pub open spec fn digit_run(s: Seq<char>) -> int
    decreases s.len(),
{
    if s.len() == 0 || !is_digit(s[0]) {
        0
    } else {
        1 + digit_run(s.skip(1))
    }
}

/// The number in the digits that `s` begins with; `None` if there are no digits or the number
/// exceeds 32 bits.
pub open spec fn leading_number(s: Seq<char>) -> Option<u32> {
    let value = digits_value(s.take(digit_run(s)));
    if digit_run(s) == 0 || value > u32::MAX {
        None
    } else {
        Some(value as u32)
    }
}

/// The leading digits of `s` are the `n` digits before a character that is none.
pub proof fn lemma_digit_run(s: Seq<char>, n: int)
    requires
        0 <= n <= s.len(),
        forall|j: int| 0 <= j < n ==> is_digit(s[j]),
        n < s.len() ==> !is_digit(s[n]),
    ensures
        digit_run(s) == n,
    decreases s.len(),
{
    if n > 0 {
        assert(is_digit(s[0]));
        assert forall|j: int| 0 <= j < n - 1 implies is_digit(s.skip(1)[j]) by {
            assert(s.skip(1)[j] == s[j + 1]);
        }
        lemma_digit_run(s.skip(1), n - 1);
    }
}

/// Reads the number at the start of what follows position `from`.
pub(crate) fn read_number(chars: &Vec<char>, from: usize) -> (number: Option<u32>)
    requires
        from <= chars@.len(),
    ensures
        number == leading_number(chars@.skip(from as int)),
{
    let ghost s = chars@.skip(from as int);
    let mut i: usize = from;
    let mut number: Option<u32> = Some(0);
    assert(s.take(0).len() == 0);
    while i < chars.len() && chars[i] >= '0' && chars[i] <= '9'
        invariant
            from <= i <= chars@.len(),
            s == chars@.skip(from as int),
            forall|j: int| 0 <= j < i - from ==> is_digit(s[j]),
            digits_value(s.take(i - from)) >= 0,
            number == (if digits_value(s.take(i - from)) > u32::MAX {
                None
            } else {
                Some(digits_value(s.take(i - from)) as u32)
            }),
        decreases chars.len() - i,
    {
        let c = chars[i];
        let d: u32 = c as u32 - '0' as u32;
        proof {
            assert(s[i - from] == c);
            assert(s.take(i - from + 1).drop_last() =~= s.take(i - from));
            assert(s.take(i - from + 1).last() == c);
        }
        number = match number {
            Some(n) => match n.checked_mul(10) {
                Some(shifted) => shifted.checked_add(d),
                None => None,
            },
            None => None,
        };
        i += 1;
    }
    proof {
        lemma_digit_run(s, i - from);
    }
    if i == from {
        None
    } else {
        number
    }
}

/// A number in decimal notation consists of digits, at least one, and denotes the number.
pub proof fn law_decimal_denotes(n: nat)
    ensures
        decimal(n).len() > 0,
        forall|j: int| 0 <= j < decimal(n).len() ==> is_digit(#[trigger] decimal(n)[j]),
        digits_value(decimal(n)) == n,
    decreases n,
{
    if n < 10 {
        assert(decimal(n).drop_last() =~= Seq::<char>::empty());
        assert(digits_value(Seq::<char>::empty()) == 0);
    } else {
        law_decimal_denotes(n / 10);
        assert(decimal(n).drop_last() =~= decimal(n / 10));
    }
}

/// A 32-bit number that is written in decimal notation, and followed by nothing or by a
/// character that is no digit, is read back as it was.
pub proof fn law_number_read_back(n: u32, rest: Seq<char>)
    requires
        rest.len() > 0 ==> !is_digit(rest[0]),
    ensures
        leading_number(decimal(n as nat) + rest) == Some(n),
{
    law_decimal_denotes(n as nat);
    let s = decimal(n as nat) + rest;
    lemma_digit_run(s, decimal(n as nat).len() as int);
    assert(s.take(decimal(n as nat).len() as int) =~= decimal(n as nat));
}

/// A number is written digit by digit: the last digit of `10 n + d` is `d`, and what stands before
/// it is `n`. A digit is written as the character that many places behind `0`.
pub proof fn law_decimal_digits(n: nat, d: nat)
    requires
        d < 10,
    ensures
        decimal(d) == seq![(0x30 + d) as char],
        n > 0 ==> decimal(10 * n + d) == decimal(n).push((0x30 + d) as char),
{
    let m = 10 * n + d;
    assert(m / 10 == n);
    assert(m % 10 == d);
}

/// A text that does not begin with a digit has no number at its start; zeros before a number make
/// no difference; and a number beyond 32 bits is not read.
pub proof fn law_number_at_start(s: Seq<char>, n: nat, rest: Seq<char>)
    requires
        rest.len() > 0 ==> !('0' <= rest[0] <= '9'),
    ensures
        s.len() == 0 || s[0] < '0' || s[0] > '9' ==> leading_number(s) is None,
        s.len() > 0 && '0' <= s[0] <= '9' ==> leading_number(seq!['0'] + s) == leading_number(s),
        n <= 0xFFFF_FFFF ==> leading_number(decimal(n) + rest) == Some(n as u32),
        n > 0xFFFF_FFFF ==> leading_number(decimal(n) + rest) is None,
{
    if n <= 0xFFFF_FFFF {
        law_number_read_back(n as u32, rest);
    } else {
        law_decimal_denotes(n);
        let t = decimal(n) + rest;
        lemma_digit_run(t, decimal(n).len() as int);
        assert(t.take(decimal(n).len() as int) =~= decimal(n));
    }
    let zero = seq!['0'] + s;
    assert(zero.skip(1) =~= s);
    lemma_digit_run_bounds(s);
    assert(zero.take(digit_run(zero)) =~= seq!['0'] + s.take(digit_run(s)));
    lemma_leading_zero(s.take(digit_run(s)));
}

proof fn lemma_digit_run_bounds(s: Seq<char>)
    ensures
        0 <= digit_run(s) <= s.len(),
        s.len() > 0 && '0' <= s[0] <= '9' ==> digit_run(s) > 0,
    decreases s.len(),
{
    if s.len() > 0 {
        lemma_digit_run_bounds(s.skip(1));
    }
}

proof fn lemma_leading_zero(digits: Seq<char>)
    ensures
        digits_value(seq!['0'] + digits) == digits_value(digits),
    decreases digits.len(),
{
    let all = seq!['0'] + digits;
    if digits.len() == 0 {
        assert(all.drop_last() =~= digits);
        assert(digits_value(all.drop_last()) == 0);
    } else {
        assert(all.drop_last() =~= seq!['0'] + digits.drop_last());
        lemma_leading_zero(digits.drop_last());
    }
}

} // verus!
