//! Tile keys: a grid cell written as the text `x,y`.
//!
//! The project file keys the tiles of a layer by text, since JSON has no
//! other keys. A key is the column and the row as signed decimal integers
//! with a comma between them and no white space.

use crate::text::{
    append_integer, decimal_digits, decimal_text, is_digit, lemma_decimal_digits,
    lemma_parse_decimal_text, parse_i32_text, read_i32,
};
use vstd::prelude::*;
use vstd::string::*;

verus! {

/// The key of cell `(x, y)`.
pub open spec fn tile_key_text(x: i32, y: i32) -> Seq<char> {
    decimal_text(x as int) + seq![','] + decimal_text(y as int)
}

/// `i` is the place of the first comma of `s`.
pub open spec fn first_comma_at(s: Seq<char>, i: int) -> bool {
    &&& 0 <= i < s.len()
    &&& s[i] == ','
    &&& forall|j: int| 0 <= j < i ==> s[j] != ','
}

/// The cell that a key denotes: the text before the first comma and the text
/// after it, each read as a 32-bit integer. A text without a comma, with a
/// second comma, or with a part that is no such integer denotes no cell.
pub open spec fn parse_tile_key_text(s: Seq<char>) -> Option<(i32, i32)> {
    if exists|i: int| first_comma_at(s, i) {
        let i = choose|i: int| first_comma_at(s, i);
        match (parse_i32_text(s.take(i)), parse_i32_text(s.skip(i + 1))) {
            (Some(x), Some(y)) => Some((x, y)),
            _ => None,
        }
    } else {
        None
    }
}

/// The decimal text of an integer holds no comma.
proof fn lemma_decimal_text_has_no_comma(n: int)
    ensures
        forall|i: int| 0 <= i < decimal_text(n).len() ==> #[trigger] decimal_text(n)[i] != ',',
{
    let magnitude = if n < 0 {
        -n
    } else {
        n
    };
    lemma_decimal_digits(magnitude);
    let digits = decimal_digits(magnitude);
    assert forall|i: int| 0 <= i < decimal_text(n).len() implies #[trigger] decimal_text(n)[i]
        != ',' by {
        if n < 0 {
            if i > 0 {
                assert(decimal_text(n)[i] == digits[i - 1]);
                assert(is_digit(digits[i - 1]));
            }
        } else {
            assert(is_digit(digits[i]));
        }
    }
}

/// Reading the key of a cell gives the cell back, for every cell of the
/// grid, negative coordinates included.
pub proof fn lemma_tile_key_round_trip(x: i32, y: i32)
    ensures
        parse_tile_key_text(tile_key_text(x, y)) == Some((x, y)),
{
    let key = tile_key_text(x, y);
    let column = decimal_text(x as int);
    let row = decimal_text(y as int);
    let at = column.len() as int;
    lemma_decimal_text_has_no_comma(x as int);
    lemma_parse_decimal_text(x as int);
    lemma_parse_decimal_text(y as int);
    assert(key[at] == ',');
    assert forall|j: int| 0 <= j < at implies key[j] != ',' by {
        assert(key[j] == column[j]);
    }
    assert(first_comma_at(key, at));
    let i = choose|i: int| first_comma_at(key, i);
    assert(i == at) by {
        if i < at {
            assert(key[i] != ',');
        }
    }
    assert(key.take(at) =~= column);
    assert(key.skip(at + 1) =~= row);
}

/// Two cells with the same key are the same cell.
pub proof fn lemma_tile_key_injective(x1: i32, y1: i32, x2: i32, y2: i32)
    requires
        tile_key_text(x1, y1) == tile_key_text(x2, y2),
    ensures
        x1 == x2 && y1 == y2,
{
    lemma_tile_key_round_trip(x1, y1);
    lemma_tile_key_round_trip(x2, y2);
}

/// Writes the key of cell `(x, y)`.
pub fn format_tile_key(x: i32, y: i32) -> (key: String)
    ensures
        key@ == tile_key_text(x, y),
{
    let mut key = String::new();
    append_integer(&mut key, x as i64);
    proof {
        reveal_strlit(",");
    }
    key.append(",");
    append_integer(&mut key, y as i64);
    proof {
        assert(key@ =~= tile_key_text(x, y));
    }
    key
}

/// Reads a key. Returns `None` for a text that is not the key of a cell.
pub fn parse_tile_key(key: &str) -> (cell: Option<(i32, i32)>)
    ensures
        cell == parse_tile_key_text(key@),
{
    let len = key.unicode_len();
    let mut at: usize = 0;
    let mut found = false;
    while at < len && !found
        invariant
            at <= len,
            len == key@.len(),
            forall|j: int| 0 <= j < at ==> key@[j] != ',',
            found ==> at < len && key@[at as int] == ',',
        decreases len - at + if found { 0int } else { 1int },
    {
        if key.get_char(at) == ',' {
            found = true;
        } else {
            at += 1;
        }
    }
    if !found {
        proof {
            assert forall|i: int| !first_comma_at(key@, i) by {
                if 0 <= i < key@.len() {
                    assert(key@[i] != ',');
                }
            }
        }
        return None;
    }
    proof {
        assert(first_comma_at(key@, at as int));
        let i = choose|i: int| first_comma_at(key@, i);
        assert(i == at) by {
            if i < at {
                assert(key@[i] != ',');
            }
        }
        assert(key@.take(at as int) =~= key@.subrange(0, at as int));
        assert(key@.skip(at + 1) =~= key@.subrange(at + 1, len as int));
    }
    match (read_i32(key, 0, at), read_i32(key, at + 1, len)) {
        (Some(x), Some(y)) => Some((x, y)),
        _ => None,
    }
}

} // verus!
