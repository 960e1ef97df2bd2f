//! Decimal numbers: the text of an integer and the integer in a text.

use crate::text::chars_of;
use vstd::prelude::*;

verus! {

/// The character of one decimal digit.
pub open spec fn digit_char(d: int) -> char {
    (48 + d) as char
}

/// The decimal digits of `n`, without leading zeros.
pub open spec fn decimal_nat(n: nat) -> Seq<char>
    decreases n,
{
    if n < 10 {
        seq![digit_char(n as int)]
    } else {
        decimal_nat(n / 10).push(digit_char(n as int % 10))
    }
}

/// The decimal text of an integer, with a minus sign where it is negative.
pub open spec fn decimal(n: int) -> Seq<char> {
    if n < 0 {
        seq!['-'] + decimal_nat((-n) as nat)
    } else {
        decimal_nat(n as nat)
    }
}

pub open spec fn is_digit(c: char) -> bool {
    48 <= c as u32 <= 57
}

/// The number that the decimal digits of `s` write, where `s` is made of
/// digits alone and is not empty.
pub open spec fn digits_value(s: Seq<char>) -> Option<nat>
    decreases s.len(),
{
    if s.len() == 0 || !is_digit(s.last()) {
        None
    } else if s.len() == 1 {
        Some((s.last() as u32 - 48) as nat)
    } else {
        match digits_value(s.drop_last()) {
            Some(v) => Some((v * 10 + (s.last() as u32 - 48)) as nat),
            None => None,
        }
    }
}

/// The integer that a text writes: decimal digits after an optional sign.
pub open spec fn integer_value(s: Seq<char>) -> Option<int> {
    if s.len() > 0 && s[0] == '-' {
        match digits_value(s.skip(1)) {
            Some(v) => Some(-(v as int)),
            None => None,
        }
    } else if s.len() > 0 && s[0] == '+' {
        match digits_value(s.skip(1)) {
            Some(v) => Some(v as int),
            None => None,
        }
    } else {
        match digits_value(s) {
            Some(v) => Some(v as int),
            None => None,
        }
    }
}

/// The integer in `s`, where it lies between `i64::MIN` and `i64::MAX`.
pub open spec fn i64_value(s: Seq<char>) -> Option<i64> {
    match integer_value(s) {
        Some(v) => if i64::MIN <= v <= i64::MAX {
            Some(v as i64)
        } else {
            None
        },
        None => None,
    }
}

/// The integer in `s`, where `s` has no minus sign and the integer is at most
/// `u64::MAX`.
pub open spec fn u64_value(s: Seq<char>) -> Option<u64> {
    match integer_value(s) {
        Some(v) => if s[0] != '-' && v <= u64::MAX {
            Some(v as u64)
        } else {
            None
        },
        None => None,
    }
}

fn digit(d: u8) -> (c: char)
    requires
        d < 10,
    ensures
        c == digit_char(d as int),
{
    (48 + d) as char
}

/// The decimal text of `n`.
pub fn u64_text(n: u64) -> (text: String)
    ensures
        text@ == decimal(n as int),
    decreases n,
{
    if n < 10 {
        let mut text: String = String::new();
        text.push(digit(n as u8));
        assert(text@ == seq![digit_char(n as int)]);
        text
    } else {
        let mut text: String = u64_text(n / 10);
        text.push(digit((n % 10) as u8));
        text
    }
}

/// The decimal text of `n`.
pub fn i64_text(n: i64) -> (text: String)
    ensures
        text@ == decimal(n as int),
{
    if n < 0 {
        let mut text: String = String::new();
        text.push('-');
        let magnitude: u64 = (-(n + 1)) as u64 + 1;
        text.append(u64_text(magnitude).as_str());
        assert(text@ == seq!['-'] + decimal_nat((-n) as nat));
        text
    } else {
        u64_text(n as u64)
    }
}

/// Further digits never make the number smaller.
proof fn lemma_digits_grow(s: Seq<char>, i: int)
    requires
        0 < i <= s.len(),
        digits_value(s.take(i)) is Some,
        digits_value(s) is Some,
    ensures
        digits_value(s.take(i))->0 <= digits_value(s)->0,
    decreases s.len(),
{
    if i == s.len() {
        assert(s.take(i) == s);
    } else {
        assert(s.drop_last().take(i) == s.take(i));
        lemma_digits_grow(s.drop_last(), i);
    }
}

/// Digits alone have digits alone in front.
proof fn lemma_digits_prefix(s: Seq<char>, i: int)
    requires
        0 < i <= s.len(),
        digits_value(s) is Some,
    ensures
        digits_value(s.take(i)) is Some,
    decreases s.len(),
{
    if i == s.len() {
        assert(s.take(i) == s);
    } else {
        assert(s.drop_last().take(i) == s.take(i));
        lemma_digits_prefix(s.drop_last(), i);
    }
}

/// The number in `chars[from..]`, where it is made of digits alone and at most
/// `u64::MAX`.
fn magnitude(chars: &Vec<char>, from: usize) -> (value: Option<u64>)
    requires
        from <= chars@.len(),
    ensures
        value == (match digits_value(chars@.skip(from as int)) {
            Some(v) => if v <= u64::MAX {
                Some(v as u64)
            } else {
                None
            },
            None => None,
        }),
{
    if from == chars.len() {
        return None;
    }
    let ghost s = chars@.skip(from as int);
    let mut total: u64 = 0;
    let mut i: usize = from;
    while i < chars.len()
        invariant
            from <= i <= chars@.len(),
            s == chars@.skip(from as int),
            from < chars@.len(),
            i == from ==> total == 0,
            i > from ==> digits_value(s.take(i - from)) == Some(total as nat),
        decreases chars@.len() - i,
    {
        let c: u32 = chars[i] as u32;
        proof {
            let next = s.take(i - from + 1);
            assert(next.drop_last() == s.take(i - from));
            assert(next.last() == chars@[i as int]);
        }
        if c < 48 || c > 57 {
            proof {
                if digits_value(s) is Some {
                    lemma_digits_prefix(s, i - from + 1);
                }
            }
            return None;
        }
        let d: u64 = (c - 48) as u64;
        if total > (u64::MAX - d) / 10 {
            proof {
                if digits_value(s) is Some {
                    lemma_digits_prefix(s, i - from + 1);
                    lemma_digits_grow(s, i - from + 1);
                }
            }
            return None;
        }
        total = total * 10 + d;
        i = i + 1;
    }
    assert(s.take(i - from) == s);
    Some(total)
}

/// The integer in `text`, where it is an `i64`.
pub fn parse_i64(text: &str) -> (value: Option<i64>)
    ensures
        value == i64_value(text@),
{
    let chars: Vec<char> = chars_of(text);
    if chars.len() > 0 && chars[0] == '-' {
        match magnitude(&chars, 1) {
            Some(m) => if m <= 0x8000_0000_0000_0000 {
                if m == 0 {
                    Some(0)
                } else {
                    let below: i64 = (m - 1) as i64;
                    Some(-below - 1)
                }
            } else {
                None
            },
            None => None,
        }
    } else {
        let from: usize = if chars.len() > 0 && chars[0] == '+' {
            1
        } else {
            0
        };
        assert(chars@.skip(0) == chars@);
        match magnitude(&chars, from) {
            Some(m) => if m <= 0x7fff_ffff_ffff_ffff {
                Some(m as i64)
            } else {
                None
            },
            None => None,
        }
    }
}

/// The integer in `text`, where it is a `u64`.
pub fn parse_u64(text: &str) -> (value: Option<u64>)
    ensures
        value == u64_value(text@),
{
    let chars: Vec<char> = chars_of(text);
    if chars.len() > 0 && chars[0] == '-' {
        return None;
    }
    let from: usize = if chars.len() > 0 && chars[0] == '+' {
        1
    } else {
        0
    };
    assert(chars@.skip(0) == chars@);
    magnitude(&chars, from)
}

proof fn lemma_decimal_nat_value(n: nat)
    ensures
        digits_value(decimal_nat(n)) == Some(n),
        decimal_nat(n).len() > 0,
        is_digit(decimal_nat(n)[0]),
    decreases n,
{
    if n >= 10 {
        lemma_decimal_nat_value(n / 10);
        let s = decimal_nat(n);
        assert(s.drop_last() == decimal_nat(n / 10));
        assert(s[0] == decimal_nat(n / 10)[0]);
    }
}

/// The text of an integer reads back as that integer.
pub proof fn law_decimal_reads_back(n: i64)
    ensures
        i64_value(decimal(n as int)) == Some(n),
{
    if n < 0 {
        lemma_decimal_nat_value((-n) as nat);
        assert(decimal(n as int).skip(1) == decimal_nat((-n) as nat));
    } else {
        lemma_decimal_nat_value(n as nat);
    }
}

/// One of the ten digits.
pub open spec fn is_numeral(c: char) -> bool {
    '0' <= c <= '9'
}

/// What digits are worth, the last one once and each before it ten times as much
/// as the next.
pub open spec fn worth(s: Seq<char>) -> int
    decreases s.len(),
{
    if s.len() == 0 {
        0
    } else {
        10 * worth(s.drop_last()) + (s.last() as int - '0' as int)
    }
}

proof fn lemma_numeral(c: char)
    ensures
        is_digit(c) <==> is_numeral(c),
{
}

proof fn lemma_digits_value(s: Seq<char>)
    ensures
        s.len() > 0 && (forall|i: int| 0 <= i < s.len() ==> is_numeral(#[trigger] s[i]))
            ==> digits_value(s) == Some(worth(s) as nat) && worth(s) >= 0,
        s.len() == 0 || (exists|i: int| 0 <= i < s.len() && !is_numeral(#[trigger] s[i]))
            ==> digits_value(s) is None,
    decreases s.len(),
{
    if s.len() > 0 {
        let head = s.drop_last();
        lemma_digits_value(head);
        let all = forall|i: int| 0 <= i < s.len() ==> is_numeral(#[trigger] s[i]);
        if all {
            assert(is_numeral(s[s.len() - 1]));
            assert forall|i: int| 0 <= i < head.len() implies is_numeral(#[trigger] head[i]) by {
                assert(head[i] == s[i]);
            }
            reveal_with_fuel(worth, 2);
        } else {
            assert(exists|i: int| 0 <= i < s.len() && !is_numeral(#[trigger] s[i]));
            let i = choose|i: int| 0 <= i < s.len() && !is_numeral(#[trigger] s[i]);
            assert(!is_numeral(s[i]));
            if i < s.len() - 1 {
                assert(head[i] == s[i]);
                assert(!is_numeral(head[i]));
                assert(digits_value(head) is None);
                assert(s.len() > 1);
            } else {
                assert(s[i] == s.last());
                assert(!is_numeral(s.last()));
                lemma_numeral(s.last());
            }
        }
    }
}

/// A text is an integer exactly where it is made of digits behind at most one sign,
/// and it is the integer that the digits are worth. It is read where the type can
/// hold it.
pub proof fn law_digits_make_a_number(s: Seq<char>)
    ensures
        ({
            let digits = s.len() > 0 && forall|i: int|
                0 <= i < s.len() ==> is_numeral(#[trigger] s[i]);
            let n = worth(s);
            let plus = seq!['+'] + s;
            let minus = seq!['-'] + s;
            &&& digits ==> n >= 0
            &&& digits && n <= i64::MAX ==> i64_value(s) == Some(n as i64) && i64_value(plus)
                == Some(n as i64)
            &&& digits && n > i64::MAX ==> i64_value(s) is None && i64_value(plus) is None
            &&& digits && -n >= i64::MIN ==> i64_value(minus) == Some((-n) as i64)
            &&& digits && -n < i64::MIN ==> i64_value(minus) is None
            &&& digits && n <= u64::MAX ==> u64_value(s) == Some(n as u64) && u64_value(plus)
                == Some(n as u64)
            &&& digits && n > u64::MAX ==> u64_value(s) is None && u64_value(plus) is None
            &&& u64_value(minus) is None
            &&& !digits ==> i64_value(plus) is None && u64_value(plus) is None && i64_value(minus)
                is None
            &&& !digits && (s.len() == 0 || (s[0] != '+' && s[0] != '-')) ==> i64_value(s) is None
                && u64_value(s) is None
        }),
{
    lemma_digits_value(s);
    let plus = seq!['+'] + s;
    let minus = seq!['-'] + s;
    assert(plus.skip(1) =~= s);
    assert(minus.skip(1) =~= s);
    let digits = s.len() > 0 && forall|i: int| 0 <= i < s.len() ==> is_numeral(#[trigger] s[i]);
    if digits {
        assert(is_numeral(s[0]));
    }
}

/// The text of an integer is written digit by digit: one more digit is ten times
/// the number and the digit, a digit alone is itself, and a negative number has a
/// minus sign before its text.
pub proof fn law_decimal_is_written_by_digits(n: int, d: int)
    requires
        0 <= d <= 9,
    ensures
        decimal(d).len() == 1,
        decimal(d)[0] as int == '0' as int + d,
        n > 0 ==> decimal(10 * n + d) == decimal(n) + decimal(d),
        n > 0 ==> decimal(-n) == seq!['-'] + decimal(n),
{
    if n > 0 {
        let m = (10 * n + d) as nat;
        assert(m / 10 == n && m as int % 10 == d);
        assert(decimal(10 * n + d) =~= decimal(n) + decimal(d));
    }
}

}
