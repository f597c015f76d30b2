//! Integers and their decimal form.
use vstd::prelude::*;
use vstd::string::*;

use crate::text::chars_of;

verus! {

/// The decimal digit of a number below ten.
pub open spec fn digit(d: nat) -> char {
    (48 + d) as char
}

/// The decimal form of a natural number.
pub open spec fn decimal(n: nat) -> Seq<char>
    decreases n,
{
    if n < 10 {
        seq![digit(n)]
    } else {
        decimal(n / 10).push(digit(n % 10))
    }
}

/// The decimal form of an integer, with a minus sign before a negative one.
pub open spec fn signed_decimal(n: int) -> Seq<char> {
    if n < 0 {
        seq!['-'] + decimal((-n) as nat)
    } else {
        decimal(n as nat)
    }
}

/// Appends the decimal form of `n`.
fn push_decimal(out: &mut String, n: u64)
    ensures
        final(out)@ == old(out)@ + decimal(n as nat),
    decreases n,
{
    if n >= 10 {
        push_decimal(out, n / 10);
    }
    let d = (n % 10) as u8;
    let ghost before = out@;
    out.push((48 + d) as char);
    proof {
        if n < 10 {
            assert(before.push(digit(n as nat)) =~= before + seq![digit(n as nat)]);
        } else {
            let high = decimal((n / 10) as nat);
            assert(old(out)@ + high.push(digit((n % 10) as nat)) =~= (old(out)@ + high).push(
                digit((n % 10) as nat),
            ));
        }
    }
}

/// The decimal form of `n`.
pub fn decimal_of(n: u64) -> (out: String)
    ensures
        out@ == decimal(n as nat),
{
    let mut out = String::new();
    push_decimal(&mut out, n);
    assert(Seq::<char>::empty() + decimal(n as nat) =~= decimal(n as nat));
    out
}

/// The decimal form of `n`, with a minus sign where it is negative.
pub fn signed_decimal_of(n: i64) -> (out: String)
    ensures
        out@ == signed_decimal(n as int),
{
    let mut out = String::new();
    if n < 0 {
        out.push('-');
        let magnitude: u64 = if n == i64::MIN {
            9223372036854775808
        } else {
            (-n) as u64
        };
        push_decimal(&mut out, magnitude);
        assert(out@ =~= seq!['-'] + decimal(magnitude as nat));
    } else {
        push_decimal(&mut out, n as u64);
        assert(out@ =~= decimal(n as nat));
    }
    out
}

/// Whether `c` is an ASCII digit.
pub open spec fn is_digit(c: char) -> bool {
    '0' <= c <= '9'
}

/// Every character of the text is an ASCII digit.
pub open spec fn all_digits(s: Seq<char>) -> bool {
    forall|i: int| 0 <= i < s.len() ==> is_digit(#[trigger] s[i])
}

/// The number that a row of digits writes.
pub open spec fn digits_value(s: Seq<char>) -> nat
    decreases s.len(),
{
    if s.len() == 0 {
        0
    } else {
        digits_value(s.drop_last()) * 10 + (s.last() as int - 48) as nat
    }
}

/// The number that `s` writes in digits alone, where it is at most `max`.
pub open spec fn digits_number(s: Seq<char>, max: nat) -> Option<nat> {
    if s.len() > 0 && all_digits(s) && digits_value(s) <= max {
        Some(digits_value(s))
    } else {
        None
    }
}

/// The natural number that `s` writes, a plus sign before it or not, where it
/// is at most `max`.
pub open spec fn natural(s: Seq<char>, max: nat) -> Option<nat> {
    if s.len() > 0 && s[0] == '+' {
        digits_number(s.drop_first(), max)
    } else {
        digits_number(s, max)
    }
}

/// The integer that `s` writes, a sign before it or not, where it fits 64 bits.
pub open spec fn integer(s: Seq<char>) -> Option<int> {
    if s.len() > 0 && s[0] == '-' {
        match digits_number(s.drop_first(), 0x8000_0000_0000_0000) {
            Some(n) => Some(-n),
            None => None,
        }
    } else {
        match natural(s, 0x7fff_ffff_ffff_ffff) {
            Some(n) => Some(n as int),
            None => None,
        }
    }
}

proof fn lemma_value_grows(s: Seq<char>, i: int, j: int)
    requires
        0 <= i <= j <= s.len(),
        forall|k: int| 0 <= k < j ==> is_digit(#[trigger] s[k]),
    ensures
        digits_value(s.take(i)) <= digits_value(s.take(j)),
    decreases j - i,
{
    if i < j {
        assert(s.take(j).drop_last() =~= s.take(j - 1));
        lemma_value_grows(s, i, j - 1);
    }
}

/// The number that the characters from `from` on write in digits alone.
fn parse_digits(chars: &Vec<char>, from: usize, max: u64) -> (n: Option<u64>)
    requires
        from <= chars.len(),
    ensures
        match n {
            Some(v) => digits_number(chars@.skip(from as int), max as nat) == Some(v as nat),
            None => digits_number(chars@.skip(from as int), max as nat) is None,
        },
{
    let ghost s = chars@.skip(from as int);
    if from == chars.len() {
        return None;
    }
    let mut value: u64 = 0;
    let mut i: usize = from;
    while i < chars.len()
        invariant
            from <= i <= chars.len(),
            s == chars@.skip(from as int),
            value <= max,
            value == digits_value(s.take(i - from)),
            forall|k: int| 0 <= k < i - from ==> is_digit(#[trigger] s[k]),
        decreases chars.len() - i,
    {
        let c = chars[i];
        assert(c == s[i - from]);
        if !('0' <= c && c <= '9') {
            return None;
        }
        let d: u64 = ((c as u8) - 48) as u64;
        proof {
            assert(s.take(i - from + 1).drop_last() =~= s.take(i - from));
            assert(digits_value(s.take(i - from + 1)) == value * 10 + d);
        }
        if d > max || value > (max - d) / 10 {
            proof {
                assert(value * 10 + d > max);
                if all_digits(s) {
                    lemma_value_grows(s, i - from + 1, s.len() as int);
                    assert(s.take(s.len() as int) =~= s);
                }
            }
            return None;
        }
        value = value * 10 + d;
        i = i + 1;
    }
    assert(s.take(s.len() as int) =~= s);
    Some(value)
}

/// The natural number that `s` writes, where it is at most `max`.
pub fn parse_natural(s: &str, max: u64) -> (n: Option<u64>)
    ensures
        match n {
            Some(v) => natural(s@, max as nat) == Some(v as nat) && v <= max,
            None => natural(s@, max as nat) is None,
        },
{
    let chars = chars_of(s);
    assert(s@.skip(0) =~= s@);
    assert(s@.len() > 0 ==> s@.skip(1) =~= s@.drop_first());
    if chars.len() > 0 && chars[0] == '+' {
        parse_digits(&chars, 1, max)
    } else {
        parse_digits(&chars, 0, max)
    }
}

/// The integer that `s` writes, where it fits 64 bits.
pub fn parse_integer(s: &str) -> (n: Option<i64>)
    ensures
        match n {
            Some(v) => integer(s@) == Some(v as int),
            None => integer(s@) is None,
        },
{
    let chars = chars_of(s);
    if chars.len() > 0 && chars[0] == '-' {
        assert(s@.skip(1) =~= s@.drop_first());
        match parse_digits(&chars, 1, 0x8000_0000_0000_0000) {
            Some(magnitude) => {
                if magnitude == 0x8000_0000_0000_0000 {
                    Some(i64::MIN)
                } else {
                    Some(-(magnitude as i64))
                }
            },
            None => None,
        }
    } else {
        match parse_natural(s, 0x7fff_ffff_ffff_ffff) {
            Some(magnitude) => Some(magnitude as i64),
            None => None,
        }
    }
}

/// The decimal form of a number is a row of digits that writes the number.
pub proof fn lemma_decimal(n: nat)
    ensures
        decimal(n).len() > 0,
        all_digits(decimal(n)),
        digits_value(decimal(n)) == n,
    decreases n,
{
    if n < 10 {
        let s = decimal(n);
        assert(s.drop_last() =~= Seq::<char>::empty());
        assert(digits_value(s.drop_last()) == 0);
    } else {
        lemma_decimal(n / 10);
        assert(decimal(n).drop_last() =~= decimal(n / 10));
    }
}

/// Reading the decimal form of an integer of 64 bits gives that integer back.
pub proof fn law_decimal_round_trip(n: i64)
    ensures
        integer(signed_decimal(n as int)) == Some(n as int),
{
    if n < 0 {
        let magnitude = (-n) as nat;
        lemma_decimal(magnitude);
        assert(signed_decimal(n as int).drop_first() =~= decimal(magnitude));
    } else {
        lemma_decimal(n as nat);
        assert(is_digit(decimal(n as nat)[0]));
    }
}

/// A row of digits writes a number of 64 bits, with a sign or without; a number
/// that is too large, a sign alone and any other text write none.
pub proof fn law_integers_are_read(digits: Seq<char>)
    requires
        digits.len() > 0,
        all_digits(digits),
    ensures
        ({
            let n = digits_value(digits) as int;
            &&& integer(digits) == if n <= i64::MAX {
                Some(n)
            } else {
                None
            }
            &&& integer(seq!['+'] + digits) == integer(digits)
            &&& integer(seq!['-'] + digits) == if -n >= i64::MIN {
                Some(-n)
            } else {
                None
            }
            &&& integer(seq!['+']) is None
            &&& integer(seq!['-']) is None
            &&& integer(seq![]) is None
        }),
{
    assert(is_digit(digits[0]));
    assert((seq!['+'] + digits).drop_first() =~= digits);
    assert((seq!['-'] + digits).drop_first() =~= digits);
}

/// A text with a character that is no digit, other than a sign at its start,
/// writes no number.
pub proof fn law_other_texts_are_no_integers(s: Seq<char>, i: int)
    requires
        0 <= i < s.len(),
        !is_digit(s[i]),
        i == 0 ==> s[0] != '+' && s[0] != '-',
    ensures
        integer(s) is None,
{
    if i > 0 {
        assert(s.drop_first()[i - 1] == s[i]);
    }
}

/// One more digit makes the number ten times as large, and adds the digit.
pub proof fn law_value_of_digits(digits: Seq<char>, d: int)
    requires
        0 <= d < 10,
    ensures
        digits_value(digits.push((48 + d) as char)) == digits_value(digits) * 10 + d,
        digits_value(Seq::<char>::empty()) == 0,
{
    let more = digits.push((48 + d) as char);
    assert(more.drop_last() =~= digits);
}

/// A natural number is read, with a plus sign or without, where it is not above the
/// limit.
pub proof fn law_naturals_are_read(digits: Seq<char>, max: nat)
    requires
        digits.len() > 0,
        all_digits(digits),
    ensures
        natural(digits, max) == if digits_value(digits) <= max {
            Some(digits_value(digits))
        } else {
            None
        },
        natural(seq!['+'] + digits, max) == natural(digits, max),
        natural(Seq::empty(), max) is None,
{
    assert(is_digit(digits[0]));
    assert((seq!['+'] + digits).drop_first() =~= digits);
}

/// A text with a character that is no digit, other than a plus sign at its start,
/// writes no natural number.
pub proof fn law_other_texts_are_no_naturals(s: Seq<char>, i: int, max: nat)
    requires
        0 <= i < s.len(),
        !is_digit(s[i]),
        i == 0 ==> s[0] != '+',
    ensures
        natural(s, max) is None,
{
    if i > 0 {
        assert(s.drop_first()[i - 1] == s[i]);
    }
}

} // verus!
