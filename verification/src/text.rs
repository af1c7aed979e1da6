//! Text as the app's names and shortcuts are cleaned up: white space, by
//! Unicode's definition of it.
use vstd::prelude::*;
use vstd::string::*;

verus! {

/// Whether a character has Unicode's White_Space property, which is what
/// `char::is_whitespace` reports: the 25 code points U+0009 to U+000D, U+0020,
/// U+0085, U+00A0, U+1680, U+2000 to U+200A, U+2028, U+2029, U+202F, U+205F
/// and U+3000.
pub open spec fn white_space(c: char) -> bool {
    let u = c as u32;
    ||| 0x09 <= u <= 0x0D
    ||| u == 0x20
    ||| u == 0x85
    ||| u == 0xA0
    ||| u == 0x1680
    ||| 0x2000 <= u <= 0x200A
    ||| u == 0x2028
    ||| u == 0x2029
    ||| u == 0x202F
    ||| u == 0x205F
    ||| u == 0x3000
}

/// Whether `c` is white space (see `white_space`).
pub(crate) fn is_white_space(c: char) -> (r: bool)
    ensures
        r == white_space(c),
{
    let u = c as u32;
    (0x09 <= u && u <= 0x0D) || u == 0x20 || u == 0x85 || u == 0xA0 || u == 0x1680 || (0x2000
        <= u && u <= 0x200A) || u == 0x2028 || u == 0x2029 || u == 0x202F || u == 0x205F || u
        == 0x3000
}

/// Whether `text[from..to]` is `text` without its leading and trailing white
/// space: everything outside the range is white space, and the range starts
/// and ends with a character that is not (or is empty, for a text that is
/// white space throughout).
pub open spec fn is_trimmed_range(text: Seq<char>, from: int, to: int) -> bool {
    &&& 0 <= from <= to <= text.len()
    &&& forall|i: int| 0 <= i < from ==> white_space(#[trigger] text[i])
    &&& forall|i: int| to <= i < text.len() ==> white_space(#[trigger] text[i])
    &&& from < to ==> !white_space(text[from]) && !white_space(text[to - 1])
    &&& from == to ==> forall|i: int| 0 <= i < text.len() ==> white_space(#[trigger] text[i])
}

/// `text` without its leading and trailing white space.
pub fn trim_white_space(text: &str) -> (r: String)
    ensures
        exists|from: int, to: int|
            #[trigger] is_trimmed_range(text@, from, to) && r@ == text@.subrange(from, to),
{
    let n = text.unicode_len();
    let mut from: usize = 0;
    while from < n && is_white_space(text.get_char(from))
        invariant
            n == text@.len(),
            from <= n,
            forall|i: int| 0 <= i < from ==> white_space(#[trigger] text@[i]),
        decreases n - from,
    {
        from = from + 1;
    }
    let mut to: usize = n;
    while to > from && is_white_space(text.get_char(to - 1))
        invariant
            n == text@.len(),
            from <= to <= n,
            forall|i: int| to <= i < n ==> white_space(#[trigger] text@[i]),
        decreases to,
    {
        to = to - 1;
    }
    let r = String::from_str(text.substring_char(from, to));
    proof {
        if from < to {
            assert(!white_space(text@[from as int]));
            assert(!white_space(text@[to - 1]));
        } else {
            assert forall|i: int| 0 <= i < text@.len() implies white_space(#[trigger] text@[i]) by {
                if i >= from {
                    assert(i >= to);
                }
            }
        }
        assert(is_trimmed_range(text@, from as int, to as int));
    }
    r
}

/// Whether a text is empty or white space throughout.
pub open spec fn blank(text: Seq<char>) -> bool {
    forall|i: int| 0 <= i < text.len() ==> white_space(#[trigger] text[i])
}

/// Whether a text is blank (see `blank`).
pub(crate) fn is_blank(text: &str) -> (r: bool)
    ensures
        r == blank(text@),
{
    let trimmed = trim_white_space(text);
    let empty = trimmed.as_str().unicode_len() == 0;
    proof {
        let (from, to) = choose|from: int, to: int|
            #[trigger] is_trimmed_range(text@, from, to) && trimmed@ == text@.subrange(from, to);
        if !empty {
            assert(from < to);
            assert(!white_space(text@[from]));
        }
    }
    empty
}

} // verus!
