//! Colours as hexadecimal text: `#RRGGBB` written, `#RRGGBB` and `#RGB`
//! read.

use vstd::prelude::*;
use vstd::string::*;

verus! {

/// The upper-case hexadecimal digit for a value from 0 to 15.
pub open spec fn hex_digit_char(d: int) -> char {
    if d < 10 {
        (d + 48) as u8 as char
    } else {
        (d + 55) as u8 as char
    }
}

/// The value of a hexadecimal digit of either case.
pub open spec fn hex_digit_value(c: char) -> Option<int> {
    let code = c as u32;
    if 48 <= code <= 57 {
        Some(code - 48)
    } else if 65 <= code <= 70 {
        Some(code - 55)
    } else if 97 <= code <= 102 {
        Some(code - 87)
    } else {
        None
    }
}

/// The text of a colour: `#` and two upper-case hexadecimal digits for each
/// of red, green and blue.
pub open spec fn hex_text(rgb: [u8; 3]) -> Seq<char> {
    seq![
        '#',
        hex_digit_char(rgb[0] as int / 16),
        hex_digit_char(rgb[0] as int % 16),
        hex_digit_char(rgb[1] as int / 16),
        hex_digit_char(rgb[1] as int % 16),
        hex_digit_char(rgb[2] as int / 16),
        hex_digit_char(rgb[2] as int % 16),
    ]
}

/// Whether `c` is white space, as Unicode defines it.
pub open spec fn is_space(c: char) -> bool {
    let code = c as u32;
    ||| 9 <= code <= 13
    ||| code == 0x20
    ||| code == 0x85
    ||| code == 0xA0
    ||| code == 0x1680
    ||| 0x2000 <= code <= 0x200A
    ||| code == 0x2028
    ||| code == 0x2029
    ||| code == 0x202F
    ||| code == 0x205F
    ||| code == 0x3000
}

/// The text without the white space at its start.
pub open spec fn trim_start(s: Seq<char>) -> Seq<char>
    decreases s.len(),
{
    if s.len() > 0 && is_space(s[0]) {
        trim_start(s.skip(1))
    } else {
        s
    }
}

/// The text without the white space at its end.
pub open spec fn trim_end(s: Seq<char>) -> Seq<char>
    decreases s.len(),
{
    if s.len() > 0 && is_space(s.last()) {
        trim_end(s.drop_last())
    } else {
        s
    }
}

/// The text without the `#` signs at its start.
pub open spec fn strip_hashes(s: Seq<char>) -> Seq<char>
    decreases s.len(),
{
    if s.len() > 0 && s[0] == '#' {
        strip_hashes(s.skip(1))
    } else {
        s
    }
}

/// The byte that two characters denote: two hexadecimal digits, or a `+`
/// and one hexadecimal digit.
pub open spec fn hex_pair(high: char, low: char) -> Option<u8> {
    match hex_digit_value(low) {
        Some(l) => if high == '+' {
            Some(l as u8)
        } else {
            match hex_digit_value(high) {
                Some(h) => Some((h * 16 + l) as u8),
                None => None,
            }
        },
        None => None,
    }
}

/// The byte that one hexadecimal digit denotes when it is written twice.
pub open spec fn hex_doubled(digit: char) -> Option<u8> {
    match hex_digit_value(digit) {
        Some(d) => Some((d * 17) as u8),
        None => None,
    }
}

/// The colour that bare digits denote: six digits are three pairs, three
/// digits are each taken twice.
pub open spec fn hex_color_of(digits: Seq<char>) -> Option<[u8; 3]> {
    if digits.len() == 6 {
        match (
            hex_pair(digits[0], digits[1]),
            hex_pair(digits[2], digits[3]),
            hex_pair(digits[4], digits[5]),
        ) {
            (Some(r), Some(g), Some(b)) => Some([r, g, b]),
            _ => None,
        }
    } else if digits.len() == 3 {
        match (hex_doubled(digits[0]), hex_doubled(digits[1]), hex_doubled(digits[2])) {
            (Some(r), Some(g), Some(b)) => Some([r, g, b]),
            _ => None,
        }
    } else {
        None
    }
}

/// The colour that a text denotes: white space around it and `#` signs
/// before the digits are left out.
pub open spec fn parse_hex_color_text(s: Seq<char>) -> Option<[u8; 3]> {
    hex_color_of(strip_hashes(trim_end(trim_start(s))))
}

/// Reading the text of a colour gives the colour back.
pub proof fn lemma_hex_round_trip(rgb: [u8; 3])
    ensures
        parse_hex_color_text(hex_text(rgb)) == Some(rgb),
{
    let text = hex_text(rgb);
    let digits = text.skip(1);
    assert(!is_space(text[0]));
    assert(!is_space(text.last()));
    assert(trim_start(text) == text);
    assert(trim_end(text) == text);
    assert(digits.len() == 6);
    assert(digits[0] != '#');
    assert(strip_hashes(digits) == digits);
    assert(strip_hashes(text) == digits);
    assert(hex_pair(digits[0], digits[1]) == Some(rgb[0]));
    assert(hex_pair(digits[2], digits[3]) == Some(rgb[1]));
    assert(hex_pair(digits[4], digits[5]) == Some(rgb[2]));
    assert([rgb[0], rgb[1], rgb[2]] =~= rgb);
}

fn hex_digit_str(d: u8) -> (text: &'static str)
    requires
        d < 16,
    ensures
        text@ == seq![hex_digit_char(d as int)],
{
    proof {
        reveal_strlit("0");
        reveal_strlit("1");
        reveal_strlit("2");
        reveal_strlit("3");
        reveal_strlit("4");
        reveal_strlit("5");
        reveal_strlit("6");
        reveal_strlit("7");
        reveal_strlit("8");
        reveal_strlit("9");
        reveal_strlit("A");
        reveal_strlit("B");
        reveal_strlit("C");
        reveal_strlit("D");
        reveal_strlit("E");
        reveal_strlit("F");
    }
    let text = if d == 0 {
        "0"
    } else if d == 1 {
        "1"
    } else if d == 2 {
        "2"
    } else if d == 3 {
        "3"
    } else if d == 4 {
        "4"
    } else if d == 5 {
        "5"
    } else if d == 6 {
        "6"
    } else if d == 7 {
        "7"
    } else if d == 8 {
        "8"
    } else if d == 9 {
        "9"
    } else if d == 10 {
        "A"
    } else if d == 11 {
        "B"
    } else if d == 12 {
        "C"
    } else if d == 13 {
        "D"
    } else if d == 14 {
        "E"
    } else {
        "F"
    };
    proof {
        assert(text@ =~= seq![hex_digit_char(d as int)]);
    }
    text
}

/// Writes a colour as `#RRGGBB`.
pub fn rgb_to_hex(rgb: [u8; 3]) -> (text: String)
    ensures
        text@ == hex_text(rgb),
{
    proof {
        reveal_strlit("#");
    }
    let mut text = String::new();
    text.append("#");
    text.append(hex_digit_str(rgb[0] / 16));
    text.append(hex_digit_str(rgb[0] % 16));
    text.append(hex_digit_str(rgb[1] / 16));
    text.append(hex_digit_str(rgb[1] % 16));
    text.append(hex_digit_str(rgb[2] / 16));
    text.append(hex_digit_str(rgb[2] % 16));
    proof {
        assert(text@ =~= hex_text(rgb));
    }
    text
}

fn char_is_space(c: char) -> (space: bool)
    ensures
        space == is_space(c),
{
    let code = c as u32;
    (9 <= code && code <= 13) || code == 0x20 || code == 0x85 || code == 0xA0 || code == 0x1680
        || (0x2000 <= code && code <= 0x200A) || code == 0x2028 || code == 0x2029 || code
        == 0x202F || code == 0x205F || code == 0x3000
}

fn read_hex_digit(c: char) -> (value: Option<u8>)
    ensures
        match value {
            Some(v) => hex_digit_value(c) == Some(v as int) && v < 16,
            None => hex_digit_value(c).is_none(),
        },
{
    let code = c as u32;
    if 48 <= code && code <= 57 {
        Some((code - 48) as u8)
    } else if 65 <= code && code <= 70 {
        Some((code - 55) as u8)
    } else if 97 <= code && code <= 102 {
        Some((code - 87) as u8)
    } else {
        None
    }
}

fn read_hex_pair(high: char, low: char) -> (value: Option<u8>)
    ensures
        value == hex_pair(high, low),
{
    match read_hex_digit(low) {
        Some(l) => if high == '+' {
            Some(l)
        } else {
            match read_hex_digit(high) {
                Some(h) => Some(h * 16 + l),
                None => None,
            }
        },
        None => None,
    }
}

fn read_hex_doubled(digit: char) -> (value: Option<u8>)
    ensures
        value == hex_doubled(digit),
{
    match read_hex_digit(digit) {
        Some(d) => Some(d * 17),
        None => None,
    }
}

/// Reads a colour from `#RRGGBB` or `#RGB`, with or without the `#` and
/// with white space around it. Returns `None` for any other text.
pub fn parse_hex_color(hex: &str) -> (rgb: Option<[u8; 3]>)
    ensures
        rgb == parse_hex_color_text(hex@),
{
    let len = hex.unicode_len();
    let mut start: usize = 0;
    let mut scanning = true;
    proof {
        assert(hex@.skip(0) =~= hex@);
    }
    while start < len && scanning
        invariant
            start <= len,
            len == hex@.len(),
            trim_start(hex@) == trim_start(hex@.skip(start as int)),
            !scanning ==> start < len && !is_space(hex@[start as int]),
        decreases len - start + if scanning { 1int } else { 0int },
    {
        if char_is_space(hex.get_char(start)) {
            proof {
                assert(hex@.skip(start as int).skip(1) =~= hex@.skip(start + 1));
            }
            start += 1;
        } else {
            scanning = false;
        }
    }
    let ghost left = hex@.skip(start as int);
    proof {
        assert(trim_start(left) == left);
        assert(left =~= hex@.subrange(start as int, len as int));
    }
    let mut end: usize = len;
    scanning = true;
    while end > start && scanning
        invariant
            start <= end <= len,
            len == hex@.len(),
            left == hex@.subrange(start as int, len as int),
            trim_end(left) == trim_end(hex@.subrange(start as int, end as int)),
            !scanning ==> end > start && !is_space(hex@[end - 1]),
        decreases end - start + if scanning { 1int } else { 0int },
    {
        if char_is_space(hex.get_char(end - 1)) {
            proof {
                assert(hex@.subrange(start as int, end as int).drop_last() =~= hex@.subrange(
                    start as int,
                    end - 1,
                ));
            }
            end -= 1;
        } else {
            scanning = false;
        }
    }
    let ghost trimmed = hex@.subrange(start as int, end as int);
    proof {
        assert(trim_end(trimmed) == trimmed);
    }
    let mut at: usize = start;
    scanning = true;
    while at < end && scanning
        invariant
            start <= at <= end <= len,
            len == hex@.len(),
            trimmed == hex@.subrange(start as int, end as int),
            strip_hashes(trimmed) == strip_hashes(hex@.subrange(at as int, end as int)),
            !scanning ==> at < end && hex@[at as int] != '#',
        decreases end - at + if scanning { 1int } else { 0int },
    {
        if hex.get_char(at) == '#' {
            proof {
                assert(hex@.subrange(at as int, end as int).skip(1) =~= hex@.subrange(
                    at + 1,
                    end as int,
                ));
            }
            at += 1;
        } else {
            scanning = false;
        }
    }
    let ghost digits = hex@.subrange(at as int, end as int);
    proof {
        assert(strip_hashes(digits) == digits);
        assert(parse_hex_color_text(hex@) == hex_color_of(digits));
    }
    if end - at == 6 {
        proof {
            assert(digits[0] == hex@[at as int]);
            assert(digits[1] == hex@[at + 1]);
            assert(digits[2] == hex@[at + 2]);
            assert(digits[3] == hex@[at + 3]);
            assert(digits[4] == hex@[at + 4]);
            assert(digits[5] == hex@[at + 5]);
        }
        match (
            read_hex_pair(hex.get_char(at), hex.get_char(at + 1)),
            read_hex_pair(hex.get_char(at + 2), hex.get_char(at + 3)),
            read_hex_pair(hex.get_char(at + 4), hex.get_char(at + 5)),
        ) {
            (Some(r), Some(g), Some(b)) => Some([r, g, b]),
            _ => None,
        }
    } else if end - at == 3 {
        proof {
            assert(digits[0] == hex@[at as int]);
            assert(digits[1] == hex@[at + 1]);
            assert(digits[2] == hex@[at + 2]);
        }
        match (
            read_hex_doubled(hex.get_char(at)),
            read_hex_doubled(hex.get_char(at + 1)),
            read_hex_doubled(hex.get_char(at + 2)),
        ) {
            (Some(r), Some(g), Some(b)) => Some([r, g, b]),
            _ => None,
        }
    } else {
        None
    }
}

} // verus!
