//! Hex colours as the screenshot composer accepts them.
use vstd::prelude::*;
use vstd::string::*;

verus! {

/// Whether a character is an ASCII hex digit.
pub open spec fn is_hex_digit(c: char) -> bool {
    ('0' <= c && c <= '9') || ('a' <= c && c <= 'f') || ('A' <= c && c <= 'F')
}

/// The value of an ASCII hex digit.
pub open spec fn hex_value(c: char) -> int {
    if '0' <= c && c <= '9' {
        c as int - '0' as int
    } else if 'a' <= c && c <= 'f' {
        c as int - 'a' as int + 10
    } else {
        c as int - 'A' as int + 10
    }
}

/// A colour's digits: the text with one leading `#` removed, if it has one.
pub open spec fn colour_digits(text: Seq<char>) -> Seq<char> {
    if text.len() > 0 && text[0] == '#' {
        text.skip(1)
    } else {
        text
    }
}

/// Whether every character of `digits` is a hex digit.
pub open spec fn all_hex(digits: Seq<char>) -> bool {
    forall|i: int| 0 <= i < digits.len() ==> is_hex_digit(#[trigger] digits[i])
}

/// The byte two hex digits spell.
pub open spec fn hex_pair(high: char, low: char) -> u8 {
    (16 * hex_value(high) + hex_value(low)) as u8
}

/// The opaque colour a background digit string stands for: six digits are
/// `RRGGBB`; three are `RGB` with each digit doubled; two are one grey level
/// repeated for all three channels.
pub open spec fn background_colour(d: Seq<char>) -> [u8; 4] {
    if d.len() == 2 {
        [hex_pair(d[0], d[1]), hex_pair(d[0], d[1]), hex_pair(d[0], d[1]), 255]
    } else if d.len() == 3 {
        [hex_pair(d[0], d[0]), hex_pair(d[1], d[1]), hex_pair(d[2], d[2]), 255]
    } else {
        [hex_pair(d[0], d[1]), hex_pair(d[2], d[3]), hex_pair(d[4], d[5]), 255]
    }
}

/// The value of one hex digit.
fn hex_digit_value(c: char) -> (r: u8)
    requires
        is_hex_digit(c),
    ensures
        r == hex_value(c),
{
    if '0' <= c && c <= '9' {
        (c as u32 - '0' as u32) as u8
    } else if 'a' <= c && c <= 'f' {
        (c as u32 - 'a' as u32 + 10) as u8
    } else {
        (c as u32 - 'A' as u32 + 10) as u8
    }
}

/// The byte two hex digits spell.
fn pair_value(high: char, low: char) -> (r: u8)
    requires
        is_hex_digit(high),
        is_hex_digit(low),
    ensures
        r == hex_pair(high, low),
{
    16 * hex_digit_value(high) + hex_digit_value(low)
}

/// Whether `c` is an ASCII hex digit.
fn hex_digit(c: char) -> (r: bool)
    ensures
        r == is_hex_digit(c),
{
    ('0' <= c && c <= '9') || ('a' <= c && c <= 'f') || ('A' <= c && c <= 'F')
}

/// The digits of a colour, one leading `#` dropped, and whether they are all
/// hex digits.
fn digits_of(value: &str) -> (r: (Vec<char>, bool))
    ensures
        r.0@ == colour_digits(value@),
        r.1 == all_hex(colour_digits(value@)),
{
    let n = value.unicode_len();
    let start: usize = if n > 0 && value.get_char(0) == '#' {
        1
    } else {
        0
    };
    let ghost digits = colour_digits(value@);
    let mut out: Vec<char> = Vec::new();
    let mut all = true;
    let mut i = start;
    while i < n
        invariant
            n == value@.len(),
            start <= i <= n,
            digits == value@.skip(start as int),
            out@ == value@.subrange(start as int, i as int),
            all == all_hex(out@),
        decreases n - i,
    {
        let c = value.get_char(i);
        let ghost before = out@;
        if !hex_digit(c) {
            all = false;
        }
        out.push(c);
        proof {
            assert(value@.subrange(start as int, i + 1) =~= value@.subrange(start as int, i as int).push(c));
            assert(out@ == before.push(c));
            if all_hex(before) && is_hex_digit(c) {
                assert forall|k: int| 0 <= k < out@.len() implies is_hex_digit(#[trigger] out@[k]) by {
                    if k < before.len() {
                        assert(out@[k] == before[k]);
                    }
                }
            } else if !is_hex_digit(c) {
                assert(!is_hex_digit(out@[out@.len() - 1]));
            } else {
                let k = choose|k: int| 0 <= k < before.len() && !is_hex_digit(#[trigger] before[k]);
                assert(out@[k] == before[k]);
            }
        }
        i = i + 1;
    }
    proof {
        assert(value@.subrange(start as int, n as int) =~= value@.skip(start as int));
    }
    (out, all)
}

/// Parses a canvas background colour: an optional `#` then two, three or six
/// hex digits (see `background_colour`). Anything else is refused.
pub fn parse_hex_colour(value: &str) -> (r: Result<[u8; 4], String>)
    ensures
        ({
            let d = colour_digits(value@);
            if (d.len() == 2 || d.len() == 3 || d.len() == 6) && all_hex(d) {
                r == Ok::<[u8; 4], String>(background_colour(d))
            } else {
                r matches Err(message) && message@ == "The screenshot background colour is not valid"@
            }
        }),
{
    let (digits, all) = digits_of(value);
    let n = digits.len();
    if !(n == 2 || n == 3 || n == 6) || !all {
        return Err(String::from_str("The screenshot background colour is not valid"));
    }
    proof {
        assert(forall|i: int| 0 <= i < n ==> is_hex_digit(#[trigger] digits@[i]));
    }
    if n == 2 {
        let grey = pair_value(digits[0], digits[1]);
        Ok([grey, grey, grey, 255])
    } else if n == 3 {
        Ok(
            [
                pair_value(digits[0], digits[0]),
                pair_value(digits[1], digits[1]),
                pair_value(digits[2], digits[2]),
                255,
            ],
        )
    } else {
        Ok(
            [
                pair_value(digits[0], digits[1]),
                pair_value(digits[2], digits[3]),
                pair_value(digits[4], digits[5]),
                255,
            ],
        )
    }
}

/// Parses a mesh gradient colour: an optional `#` then exactly six hex digits,
/// `RRGGBB`. Anything else is refused.
pub fn parse_mesh_colour(value: &str) -> (r: Result<[u8; 4], String>)
    ensures
        ({
            let d = colour_digits(value@);
            if d.len() == 6 && all_hex(d) {
                r == Ok::<[u8; 4], String>(background_colour(d))
            } else {
                r matches Err(message) && message@ == "The screenshot mesh colour is not valid"@
            }
        }),
{
    let (digits, all) = digits_of(value);
    if digits.len() != 6 || !all {
        return Err(String::from_str("The screenshot mesh colour is not valid"));
    }
    proof {
        assert(forall|i: int| 0 <= i < 6 ==> is_hex_digit(#[trigger] digits@[i]));
    }
    Ok(
        [
            pair_value(digits[0], digits[1]),
            pair_value(digits[2], digits[3]),
            pair_value(digits[4], digits[5]),
            255,
        ],
    )
}

/// Whether `text` is a valid mesh colour: six hex digits after an optional `#`.
pub open spec fn is_mesh_colour(text: Seq<char>) -> bool {
    colour_digits(text).len() == 6 && all_hex(colour_digits(text))
}

/// Parses every colour of a mesh gradient, in order; the first that is not a
/// valid mesh colour refuses them all.
pub fn parse_mesh_colours(colours: &Vec<String>) -> (r: Result<Vec<[u8; 4]>, String>)
    ensures
        (forall|i: int| 0 <= i < colours@.len() ==> is_mesh_colour(#[trigger] colours@[i]@)) ==> (
        r matches Ok(parsed) && parsed@.len() == colours@.len() && forall|i: int|
            0 <= i < colours@.len() ==> #[trigger] parsed@[i] == background_colour(
                colour_digits(colours@[i]@),
            )),
        !(forall|i: int| 0 <= i < colours@.len() ==> is_mesh_colour(#[trigger] colours@[i]@)) ==> (
        r matches Err(message) && message@ == "The screenshot mesh colour is not valid"@),
{
    let mut parsed: Vec<[u8; 4]> = Vec::new();
    let mut i: usize = 0;
    while i < colours.len()
        invariant
            i <= colours@.len(),
            parsed@.len() == i,
            forall|k: int| 0 <= k < i ==> is_mesh_colour(#[trigger] colours@[k]@),
            forall|k: int|
                0 <= k < i ==> #[trigger] parsed@[k] == background_colour(
                    colour_digits(colours@[k]@),
                ),
        decreases colours@.len() - i,
    {
        match parse_mesh_colour(colours[i].as_str()) {
            Ok(colour) => {
                parsed.push(colour);
            },
            Err(message) => {
                assert(!is_mesh_colour(colours@[i as int]@));
                return Err(message);
            },
        }
        i = i + 1;
    }
    Ok(parsed)
}

} // verus!
