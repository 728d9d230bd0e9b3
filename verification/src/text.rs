//! Numbers as text: decimal and hexadecimal digits, written and read.

use vstd::prelude::*;
use vstd::string::*;

verus! {

/// Whether `c` is one of `0` to `9`.
pub open spec fn is_digit(c: char) -> bool {
    48 <= c as u32 <= 57
}

/// The value of a decimal digit.
pub open spec fn digit_value(c: char) -> int {
    c as u32 - 48
}

/// The digit for a value from 0 to 9.
pub open spec fn digit_char(d: int) -> char {
    (d + 48) as u8 as char
}

/// Whether every character is a decimal digit.
pub open spec fn all_digits(s: Seq<char>) -> bool {
    forall|i: int| 0 <= i < s.len() ==> is_digit(#[trigger] s[i])
}

/// The number that a run of decimal digits denotes; 0 for the empty run.
pub open spec fn digits_value(s: Seq<char>) -> int
    decreases s.len(),
{
    if s.len() == 0 {
        0
    } else {
        digits_value(s.drop_last()) * 10 + digit_value(s.last())
    }
}

/// The decimal digits of a natural number, without leading zeros.
pub open spec fn decimal_digits(n: int) -> Seq<char>
    decreases n,
{
    if n < 10 {
        seq![digit_char(n)]
    } else {
        decimal_digits(n / 10).push(digit_char(n % 10))
    }
}

/// The decimal text of an integer: a minus sign for a negative number, then
/// the digits.
pub open spec fn decimal_text(n: int) -> Seq<char> {
    if n < 0 {
        seq!['-'] + decimal_digits(-n)
    } else {
        decimal_digits(n)
    }
}

/// The integer that a text denotes: an optional `+` or `-`, then one or more
/// decimal digits and nothing else.
pub open spec fn parse_integer(s: Seq<char>) -> Option<int> {
    if s.len() > 0 && s[0] == '-' {
        if s.len() > 1 && all_digits(s.skip(1)) {
            Some(-digits_value(s.skip(1)))
        } else {
            None
        }
    } else if s.len() > 0 && s[0] == '+' {
        if s.len() > 1 && all_digits(s.skip(1)) {
            Some(digits_value(s.skip(1)))
        } else {
            None
        }
    } else if s.len() > 0 && all_digits(s) {
        Some(digits_value(s))
    } else {
        None
    }
}

/// The 32-bit integer that a text denotes, where it denotes one.
pub open spec fn parse_i32_text(s: Seq<char>) -> Option<i32> {
    match parse_integer(s) {
        Some(n) => if i32::MIN <= n <= i32::MAX {
            Some(n as i32)
        } else {
            None
        },
        None => None,
    }
}

/// The digits of a number are digits, and denote that number.
pub proof fn lemma_decimal_digits(n: int)
    requires
        n >= 0,
    ensures
        decimal_digits(n).len() >= 1,
        all_digits(decimal_digits(n)),
        digits_value(decimal_digits(n)) == n,
    decreases n,
{
    if n < 10 {
        let s = decimal_digits(n);
        assert(s.drop_last() =~= Seq::<char>::empty());
        assert(digits_value(s.drop_last()) == 0);
        assert(s.last() == digit_char(n));
    } else {
        lemma_decimal_digits(n / 10);
        let s = decimal_digits(n);
        assert(s.drop_last() =~= decimal_digits(n / 10));
        assert(s.last() == digit_char(n % 10));
        assert forall|i: int| 0 <= i < s.len() implies is_digit(#[trigger] s[i]) by {
            if i < s.len() - 1 {
                assert(s[i] == decimal_digits(n / 10)[i]);
            }
        }
    }
}

/// Reading the decimal text of an integer gives the integer back.
pub proof fn lemma_parse_decimal_text(n: int)
    ensures
        parse_integer(decimal_text(n)) == Some(n),
{
    if n < 0 {
        lemma_decimal_digits(-n);
        let s = decimal_text(n);
        assert(s.skip(1) =~= decimal_digits(-n));
        assert(s[0] == '-');
    } else {
        lemma_decimal_digits(n);
        let s = decimal_digits(n);
        assert(is_digit(s[0]));
    }
}

/// The one-character text of a decimal digit.
fn digit_str(d: u64) -> (text: &'static str)
    requires
        d < 10,
    ensures
        text@ == seq![digit_char(d as int)],
{
    proof {
        reveal_strlit("0");
        reveal_strlit("1");
        reveal_strlit("2");
        reveal_strlit("3");
        reveal_strlit("4");
        reveal_strlit("5");
        reveal_strlit("6");
        reveal_strlit("7");
        reveal_strlit("8");
        reveal_strlit("9");
    }
    let text = if d == 0 {
        "0"
    } else if d == 1 {
        "1"
    } else if d == 2 {
        "2"
    } else if d == 3 {
        "3"
    } else if d == 4 {
        "4"
    } else if d == 5 {
        "5"
    } else if d == 6 {
        "6"
    } else if d == 7 {
        "7"
    } else if d == 8 {
        "8"
    } else {
        "9"
    };
    proof {
        assert(text@ =~= seq![digit_char(d as int)]);
    }
    text
}

/// Appends the decimal digits of `n`.
pub fn append_decimal(out: &mut String, n: u64)
    ensures
        final(out)@ == old(out)@ + decimal_digits(n as int),
    decreases n,
{
    if n < 10 {
        out.append(digit_str(n));
    } else {
        append_decimal(out, n / 10);
        out.append(digit_str(n % 10));
        proof {
            assert(out@ =~= old(out)@ + decimal_digits(n as int));
        }
    }
}

/// Appends the decimal text of `n`.
pub fn append_integer(out: &mut String, n: i64)
    ensures
        final(out)@ == old(out)@ + decimal_text(n as int),
{
    if n < 0 {
        proof {
            reveal_strlit("-");
        }
        out.append("-");
        let magnitude: u64 = if n == i64::MIN {
            0x8000_0000_0000_0000
        } else {
            (-n) as u64
        };
        append_decimal(out, magnitude);
        proof {
            assert(out@ =~= old(out)@ + decimal_text(n as int));
        }
    } else {
        append_decimal(out, n as u64);
    }
}

/// Reads characters `from..to` of `text` as decimal digits. Returns the
/// number, or `None` where a character is no digit, where there is none at
/// all, or where the number is above `limit`.
fn read_digits(text: &str, from: usize, to: usize, limit: u64) -> (value: Option<u64>)
    requires
        from <= to <= text@.len(),
        limit <= 0xffff_ffff_ffff,
    ensures
        match value {
            Some(n) => from < to && all_digits(text@.subrange(from as int, to as int)) && n
                == digits_value(text@.subrange(from as int, to as int)) && n <= limit,
            None => from == to || !all_digits(text@.subrange(from as int, to as int))
                || digits_value(text@.subrange(from as int, to as int)) > limit,
        },
{
    if from == to {
        return None;
    }
    let ghost whole = text@.subrange(from as int, to as int);
    let mut value: u64 = 0;
    let mut over = false;
    let mut i: usize = from;
    while i < to
        invariant
            from <= i <= to <= text@.len(),
            limit <= 0xffff_ffff_ffff,
            whole == text@.subrange(from as int, to as int),
            all_digits(text@.subrange(from as int, i as int)),
            !over ==> value == digits_value(text@.subrange(from as int, i as int)) && value
                <= limit,
            over ==> digits_value(text@.subrange(from as int, i as int)) > limit,
        decreases to - i,
    {
        let c = text.get_char(i);
        let code = c as u32;
        let ghost prefix = text@.subrange(from as int, i as int);
        let ghost next = text@.subrange(from as int, i + 1);
        proof {
            assert(next.drop_last() =~= prefix);
            assert(next.last() == c);
            assert(whole[i - from] == c);
        }
        if code < 48 || code > 57 {
            return None;
        }
        if !over {
            value = value * 10 + (code - 48) as u64;
            if value > limit {
                over = true;
            }
        }
        proof {
            assert forall|j: int| 0 <= j < next.len() implies is_digit(#[trigger] next[j]) by {
                if j < next.len() - 1 {
                    assert(prefix[j] == next[j]);
                }
            }
        }
        i += 1;
    }
    if over {
        None
    } else {
        Some(value)
    }
}

/// Reads characters `from..to` of `text` as a 32-bit integer: an optional
/// `+` or `-`, then one or more decimal digits.
pub fn read_i32(text: &str, from: usize, to: usize) -> (value: Option<i32>)
    requires
        from <= to <= text@.len(),
    ensures
        value == parse_i32_text(text@.subrange(from as int, to as int)),
{
    let ghost part = text@.subrange(from as int, to as int);
    if from == to {
        return None;
    }
    let first = text.get_char(from);
    proof {
        assert(part[0] == first);
        assert(part.skip(1) =~= text@.subrange(from + 1, to as int));
    }
    if first == '-' {
        match read_digits(text, from + 1, to, 0x8000_0000) {
            Some(n) => Some((-(n as i64)) as i32),
            None => None,
        }
    } else if first == '+' {
        match read_digits(text, from + 1, to, 0x7fff_ffff) {
            Some(n) => Some(n as i32),
            None => None,
        }
    } else {
        match read_digits(text, from, to, 0x7fff_ffff) {
            Some(n) => Some(n as i32),
            None => None,
        }
    }
}

} // verus!
