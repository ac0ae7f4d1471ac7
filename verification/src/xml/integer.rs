//! Decimal integers as text.

use vstd::prelude::*;
use vstd::string::StringExecFns;
use crate::error::IntErrorKind;

verus! {

pub open spec fn is_digit(c: char) -> bool {
    '0' <= c && c <= '9'
}

pub open spec fn digit_value(c: char) -> int {
    c as int - '0' as int
}

/// The digits before position `n`, read as a number that grows away from
/// zero; the first character that is no digit, or the first step that leaves
/// the range from `min` to `max`, ends the reading.
pub open spec fn scan(digits: Seq<char>, negative: bool, min: int, max: int, n: nat) -> Result<
    int,
    IntErrorKind,
>
    decreases n,
{
    if n == 0 {
        Ok(0)
    } else {
        match scan(digits, negative, min, max, (n - 1) as nat) {
            Err(e) => Err(e),
            Ok(acc) => {
                let c = digits[n - 1];
                let next = if negative {
                    acc * 10 - digit_value(c)
                } else {
                    acc * 10 + digit_value(c)
                };
                if !is_digit(c) {
                    Err(IntErrorKind::InvalidDigit)
                } else if next < min {
                    Err(IntErrorKind::NegOverflow)
                } else if next > max {
                    Err(IntErrorKind::PosOverflow)
                } else {
                    Ok(next)
                }
            },
        }
    }
}

/// Whether the text starts with a sign that a type with lower bound `min`
/// takes: `+` always, `-` only where the type has negative values.
pub open spec fn has_sign(text: Seq<char>, min: int) -> bool {
    text.len() > 0 && (text[0] == '+' || (text[0] == '-' && min < 0))
}

/// The integer that a text stands for in a type with the range from `min` to
/// `max`: an optional sign, then decimal digits and nothing else.
pub open spec fn parse_int(text: Seq<char>, min: int, max: int) -> Result<int, IntErrorKind> {
    if text.len() == 0 {
        Err(IntErrorKind::Empty)
    } else if text.len() == 1 && (text[0] == '+' || text[0] == '-') {
        Err(IntErrorKind::InvalidDigit)
    } else if has_sign(text, min) {
        scan(text.skip(1), text[0] == '-', min, max, (text.len() - 1) as nat)
    } else {
        scan(text, false, min, max, text.len())
    }
}

/// Once the reading has failed, further characters change nothing.
pub proof fn lemma_scan_failure_stays(
    digits: Seq<char>,
    negative: bool,
    min: int,
    max: int,
    n: nat,
    m: nat,
)
    requires
        n <= m,
        scan(digits, negative, min, max, n) is Err,
    ensures
        scan(digits, negative, min, max, m) == scan(digits, negative, min, max, n),
    decreases m,
{
    if n < m {
        lemma_scan_failure_stays(digits, negative, min, max, n, (m - 1) as nat);
    }
}

/// Reads an integer of a type with the range from `min` to `max`.
pub fn parse_integer(val: &str, min: i128, max: i128) -> (r: Result<i128, IntErrorKind>)
    requires
        -0x1_0000_0000_0000_0000 <= min <= 0 <= max <= 0x1_0000_0000_0000_0000,
    ensures
        match parse_int(val@, min as int, max as int) {
            Ok(v) => r == Ok::<i128, IntErrorKind>(v as i128) && min <= v <= max,
            Err(e) => r == Err::<i128, IntErrorKind>(e),
        },
{
    let mut acc: i128 = 0;
    let mut first = true;
    let mut negative = false;
    let mut signed = false;
    let mut any_digit = false;
    let ghost text = val@;
    for c in it: val.chars()
        invariant
            it.seq() == text,
            text == val@,
            -0x1_0000_0000_0000_0000 <= min <= 0 <= max <= 0x1_0000_0000_0000_0000,
            min <= acc <= max,
            first == (it.index() == 0),
            any_digit == (it.index() > 0 && !(signed && it.index() == 1)),
            it.index() > 0 ==> signed == has_sign(text, min as int),
            it.index() > 0 ==> negative == (signed && text[0] == '-'),
            it.index() == 0 ==> acc == 0 && !signed && !negative,
            it.index() > 0 && signed ==> scan(
                text.skip(1),
                negative,
                min as int,
                max as int,
                (it.index() - 1) as nat,
            ) == Ok::<int, IntErrorKind>(acc as int),
            it.index() > 0 && !signed ==> scan(
                text,
                false,
                min as int,
                max as int,
                it.index() as nat,
            ) == Ok::<int, IntErrorKind>(acc as int),
    {
        let ghost i = it.index();
        assert(c == text[i]);
        if first && (c == '+' || (c == '-' && min < 0)) {
            signed = true;
            negative = c == '-';
            first = false;
        } else {
            first = false;
            let ghost digits = if signed {
                text.skip(1)
            } else {
                text
            };
            let ghost at: nat = if signed {
                (i - 1) as nat
            } else {
                i as nat
            };
            assert(digits[at as int] == c);
            let ghost total: nat = if signed {
                (text.len() - 1) as nat
            } else {
                text.len()
            };
            if !(c >= '0' && c <= '9') {
                proof {
                    lemma_scan_failure_stays(digits, negative, min as int, max as int, at + 1, total);
                }
                return Err(IntErrorKind::InvalidDigit);
            }
            let d: i128 = (c as u8 - '0' as u8) as i128;
            let next: i128 = if negative {
                acc * 10 - d
            } else {
                acc * 10 + d
            };
            if next < min {
                proof {
                    lemma_scan_failure_stays(digits, negative, min as int, max as int, at + 1, total);
                }
                return Err(IntErrorKind::NegOverflow);
            }
            if next > max {
                proof {
                    lemma_scan_failure_stays(digits, negative, min as int, max as int, at + 1, total);
                }
                return Err(IntErrorKind::PosOverflow);
            }
            acc = next;
            any_digit = true;
        }
    }
    if first {
        return Err(IntErrorKind::Empty);
    }
    if !any_digit {
        // A sign alone.
        return Err(IntErrorKind::InvalidDigit);
    }
    Ok(acc)
}

/// The character of a digit.
pub open spec fn digit_char(d: int) -> char {
    (d + 48) as u8 as char
}

/// The decimal digits of a number, without leading zeros.
pub open spec fn digits(n: nat) -> Seq<char>
    decreases n,
{
    if n < 10 {
        seq![digit_char(n as int)]
    } else {
        digits(n / 10).push(digit_char((n % 10) as int))
    }
}

/// An integer in decimal, with `-` before a negative one.
pub open spec fn decimal(v: int) -> Seq<char> {
    if v < 0 {
        seq!['-'] + digits((-v) as nat)
    } else {
        digits(v as nat)
    }
}

fn digit_str(d: u8) -> (s: &'static str)
    requires
        d < 10,
    ensures
        s@ == seq![digit_char(d as int)],
{
    proof {
        reveal_strlit("0");
        reveal_strlit("1");
        reveal_strlit("2");
        reveal_strlit("3");
        reveal_strlit("4");
        reveal_strlit("5");
        reveal_strlit("6");
        reveal_strlit("7");
        reveal_strlit("8");
        reveal_strlit("9");
    }
    let s = match d {
        0 => "0",
        1 => "1",
        2 => "2",
        3 => "3",
        4 => "4",
        5 => "5",
        6 => "6",
        7 => "7",
        8 => "8",
        _ => "9",
    };
    assert(s@ =~= seq![digit_char(d as int)]);
    s
}

fn push_digits(out: &mut String, n: u128)
    ensures
        final(out)@ == old(out)@ + digits(n as nat),
    decreases n,
{
    if n >= 10 {
        push_digits(out, n / 10);
    }
    out.append(digit_str((n % 10) as u8));
    assert(out@ =~= old(out)@ + digits(n as nat));
}

/// Writes an integer in decimal.
pub fn format_integer(v: i128) -> (s: String)
    ensures
        s@ == decimal(v as int),
{
    let mut s = String::new();
    if v < 0 {
        s.append("-");
        proof {
            reveal_strlit("-");
        }
        // The magnitude of the least integer does not fit its own type.
        let magnitude: u128 = ((-(v + 1)) as u128) + 1;
        push_digits(&mut s, magnitude);
        assert(s@ =~= decimal(v as int));
    } else {
        push_digits(&mut s, v as u128);
        assert(s@ =~= decimal(v as int));
    }
    s
}

/// What is read up to a position depends only on the characters before it.
pub proof fn lemma_scan_prefix(
    a: Seq<char>,
    b: Seq<char>,
    negative: bool,
    min: int,
    max: int,
    n: nat,
)
    requires
        n <= a.len(),
        n <= b.len(),
        forall|i: int| 0 <= i < n ==> a[i] == b[i],
    ensures
        scan(a, negative, min, max, n) == scan(b, negative, min, max, n),
    decreases n,
{
    if n > 0 {
        lemma_scan_prefix(a, b, negative, min, max, (n - 1) as nat);
    }
}

/// The digits of a number read back as the number, with either sign.
pub proof fn lemma_scan_digits(n: nat, negative: bool, min: int, max: int)
    requires
        min <= 0 <= max,
        negative ==> min <= -(n as int),
        !negative ==> n <= max,
    ensures
        digits(n).len() >= 1,
        is_digit(digits(n)[0]),
        scan(digits(n), negative, min, max, digits(n).len()) == Ok::<int, IntErrorKind>(
            if negative {
                -(n as int)
            } else {
                n as int
            },
        ),
    decreases n,
{
    if n < 10 {
        assert(scan(digits(n), negative, min, max, 0) == Ok::<int, IntErrorKind>(0));
    } else {
        lemma_scan_digits(n / 10, negative, min, max);
        let shorter = digits(n / 10);
        lemma_scan_prefix(digits(n), shorter, negative, min, max, shorter.len());
        assert(digits(n)[shorter.len() as int] == digit_char((n % 10) as int));
        assert(digits(n)[0] == shorter[0]);
    }
}

/// An integer written in decimal is read back as itself.
pub proof fn lemma_parse_decimal(v: int, min: int, max: int)
    requires
        min <= 0 <= max,
        min <= v <= max,
    ensures
        parse_int(decimal(v), min, max) == Ok::<int, IntErrorKind>(v),
{
    if v < 0 {
        let m = (-v) as nat;
        lemma_scan_digits(m, true, min, max);
        assert(decimal(v).skip(1) =~= digits(m));
    } else {
        lemma_scan_digits(v as nat, false, min, max);
    }
}

} // verus!
