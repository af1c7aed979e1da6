//! The names files are given: sanitised identifiers and collision-free
//! screenshot names.
use vstd::prelude::*;
use vstd::string::*;
use crate::calendar::{
    digits, field_text, lemma_digits_len, lemma_year_text_len, year_text, plain_text_from, CalendarTime, format_calendar_time,
    plain_pattern_from,
};

verus! {

/// Appends one character to a string.
///
/// Trusted: calls `String::push`, whose documentation says it appends the
/// given `char` to the end of the string. The contract claims exactly that of
/// the string's characters.
#[verifier::external_body]
fn push_char(s: &mut String, c: char)
    ensures
        final(s)@ == old(s)@.push(c),
{
    s.push(c);
}

/// Whether a character may stand in a cached file's name as it is: ASCII
/// letters and digits, `-`, `_` and `.`.
pub open spec fn is_filename_safe(c: char) -> bool {
    ('a' <= c && c <= 'z') || ('A' <= c && c <= 'Z') || ('0' <= c && c <= '9') || c == '-' || c
        == '_' || c == '.'
}

/// A character as it stands in a sanitised name: itself when safe, `_`
/// otherwise.
pub open spec fn sanitized_char(c: char) -> char {
    if is_filename_safe(c) {
        c
    } else {
        '_'
    }
}

/// Makes an identifier (a bundle identifier, say) safe to use as a file name
/// by replacing every character other than ASCII letters, digits, `-`, `_`
/// and `.` with `_`. The result has one character for each of the input's.
pub fn sanitize_filename(value: &str) -> (r: String)
    ensures
        r@ == value@.map_values(|c: char| sanitized_char(c)),
{
    let n = value.unicode_len();
    let mut result = String::new();
    let mut i: usize = 0;
    while i < n
        invariant
            n == value@.len(),
            i <= n,
            result@ == value@.take(i as int).map_values(|c: char| sanitized_char(c)),
        decreases n - i,
    {
        let c = value.get_char(i);
        let safe = ('a' <= c && c <= 'z') || ('A' <= c && c <= 'Z') || ('0' <= c && c <= '9') || c
            == '-' || c == '_' || c == '.';
        if safe {
            push_char(&mut result, c);
        } else {
            push_char(&mut result, '_');
        }
        proof {
            assert(value@.take(i + 1) =~= value@.take(i as int).push(c));
        }
        i = i + 1;
    }
    proof {
        assert(value@.take(n as int) =~= value@);
    }
    result
}

/// The decimal digit for `d` (below ten).
pub open spec fn digit_char(d: int) -> char {
    ('0' as int + d) as char
}

/// The decimal representation of `n`, without leading zeros.
pub open spec fn decimal(n: nat) -> Seq<char>
    decreases n,
{
    if n < 10 {
        seq![digit_char(n as int)]
    } else {
        decimal(n / 10).push(digit_char((n % 10) as int))
    }
}

/// The digit character for a value below ten.
fn digit(d: u32) -> (c: char)
    requires
        d < 10,
    ensures
        c == digit_char(d as int),
{
    if d == 0 {
        '0'
    } else if d == 1 {
        '1'
    } else if d == 2 {
        '2'
    } else if d == 3 {
        '3'
    } else if d == 4 {
        '4'
    } else if d == 5 {
        '5'
    } else if d == 6 {
        '6'
    } else if d == 7 {
        '7'
    } else if d == 8 {
        '8'
    } else {
        '9'
    }
}

/// Appends the decimal representation of `n` to `s`.
pub(crate) fn push_decimal_to(s: &mut String, n: u32)
    ensures
        final(s)@ == old(s)@ + decimal(n as nat),
    decreases n,
{
    if n >= 10 {
        push_decimal_to(s, n / 10);
        push_char(s, digit(n % 10));
        proof {
            assert(old(s)@ + decimal((n / 10) as nat) + seq![digit_char((n % 10) as int)] =~= old(
                s,
            )@ + decimal(n as nat));
        }
    } else {
        push_char(s, digit(n));
        proof {
            assert(old(s)@.push(digit_char(n as int)) =~= old(s)@ + decimal(n as nat));
        }
    }
}

/// The `attempt`th name tried for a file: `stem.extension` first, then
/// `stem (2).extension`, `stem (3).extension` and so on, as file managers do.
pub open spec fn candidate_name(stem: Seq<char>, extension: Seq<char>, attempt: nat) -> Seq<char> {
    if attempt <= 1 {
        stem + "."@ + extension
    } else {
        stem + " ("@ + decimal(attempt) + ")."@ + extension
    }
}

/// A capture's file stem as chrono prints it: `Orbit Capture YYYY-MM-DD at
/// HH.MM.SS` for the years 0 to 9999 (see `year_text` for the others).
pub open spec fn capture_stem(t: CalendarTime) -> Seq<char> {
    "Orbit Capture "@ + year_text(t.year as int) + seq!['-'] + digits(t.month as int, 2) + seq!['-']
        + digits(t.day as int, 2) + " at "@ + digits(t.hour as int, 2) + seq!['.'] + digits(t.minute as int, 2)
        + seq!['.'] + field_text('S', t)
}

/// The capture pattern makes `capture_stem` of a moment.
proof fn lemma_capture_stem_text(t: CalendarTime)
    ensures
        plain_text_from("Orbit Capture %Y-%m-%d at %H.%M.%S"@, 0, t) == capture_stem(t),
{
    reveal_strlit("Orbit Capture %Y-%m-%d at %H.%M.%S");
    let p = "Orbit Capture %Y-%m-%d at %H.%M.%S"@;
    let e34 = Seq::<char>::empty();
    assert(plain_text_from(p, 34, t) == e34);
    let e32 = field_text('S', t) + e34;
    assert(plain_text_from(p, 32, t) == e32);
    let e31 = seq!['.'] + e32;
    assert(plain_text_from(p, 31, t) == e31);
    let e29 = field_text('M', t) + e31;
    assert(plain_text_from(p, 29, t) == e29);
    let e28 = seq!['.'] + e29;
    assert(plain_text_from(p, 28, t) == e28);
    let e26 = field_text('H', t) + e28;
    assert(plain_text_from(p, 26, t) == e26);
    let e25 = seq![' '] + e26;
    assert(plain_text_from(p, 25, t) == e25);
    let e24 = seq!['t'] + e25;
    assert(plain_text_from(p, 24, t) == e24);
    let e23 = seq!['a'] + e24;
    assert(plain_text_from(p, 23, t) == e23);
    let e22 = seq![' '] + e23;
    assert(plain_text_from(p, 22, t) == e22);
    let e20 = field_text('d', t) + e22;
    assert(plain_text_from(p, 20, t) == e20);
    let e19 = seq!['-'] + e20;
    assert(plain_text_from(p, 19, t) == e19);
    let e17 = field_text('m', t) + e19;
    assert(plain_text_from(p, 17, t) == e17);
    let e16 = seq!['-'] + e17;
    assert(plain_text_from(p, 16, t) == e16);
    let e14 = field_text('Y', t) + e16;
    assert(plain_text_from(p, 14, t) == e14);
    let e13 = seq![' '] + e14;
    assert(plain_text_from(p, 13, t) == e13);
    let e12 = seq!['e'] + e13;
    assert(plain_text_from(p, 12, t) == e12);
    let e11 = seq!['r'] + e12;
    assert(plain_text_from(p, 11, t) == e11);
    let e10 = seq!['u'] + e11;
    assert(plain_text_from(p, 10, t) == e10);
    let e9 = seq!['t'] + e10;
    assert(plain_text_from(p, 9, t) == e9);
    let e8 = seq!['p'] + e9;
    assert(plain_text_from(p, 8, t) == e8);
    let e7 = seq!['a'] + e8;
    assert(plain_text_from(p, 7, t) == e7);
    let e6 = seq!['C'] + e7;
    assert(plain_text_from(p, 6, t) == e6);
    let e5 = seq![' '] + e6;
    assert(plain_text_from(p, 5, t) == e5);
    let e4 = seq!['t'] + e5;
    assert(plain_text_from(p, 4, t) == e4);
    let e3 = seq!['i'] + e4;
    assert(plain_text_from(p, 3, t) == e3);
    let e2 = seq!['b'] + e3;
    assert(plain_text_from(p, 2, t) == e2);
    let e1 = seq!['r'] + e2;
    assert(plain_text_from(p, 1, t) == e1);
    let e0 = seq!['O'] + e1;
    assert(plain_text_from(p, 0, t) == e0);
    reveal_strlit("Orbit Capture ");
    reveal_strlit(" at ");
    lemma_year_text_len(t.year as int);
    lemma_digits_len(t.month as int, 2);
    lemma_digits_len(t.day as int, 2);
    lemma_digits_len(t.hour as int, 2);
    lemma_digits_len(t.minute as int, 2);
    lemma_digits_len(t.second + t.millisecond / 1000, 2);
    assert(e0 =~= capture_stem(t));
}

/// The name, without extension, of a file captured at `captured_at`: the
/// naming macOS's own `screencapture` uses, which is the least surprising
/// thing to find sitting on a Desktop. Recordings are named the same way, from
/// the moment they started, so a session's files sit together in order.
pub fn capture_file_stem(captured_at: CalendarTime) -> (stem: String)
    requires
        captured_at.is_valid(),
    ensures
        "Orbit Capture "@.is_prefix_of(stem@),
        stem@ == capture_stem(captured_at),
{
    let pattern = "Orbit Capture %Y-%m-%d at %H.%M.%S";
    proof {
        reveal_strlit("Orbit Capture %Y-%m-%d at %H.%M.%S");
        reveal_with_fuel(plain_pattern_from, 36);
        lemma_capture_stem_text(captured_at);
    }
    let stem = format_calendar_time(&captured_at, pattern);
    proof {
        reveal_strlit("Orbit Capture ");
        assert(stem@.subrange(0, 14) =~= "Orbit Capture "@);
    }
    stem
}

/// Builds the `attempt`th candidate name.
fn candidate(stem: &str, extension: &str, attempt: u32) -> (r: String)
    ensures
        r@ == candidate_name(stem@, extension@, attempt as nat),
{
    let mut name = String::from_str(stem);
    if attempt <= 1 {
        name.append(".");
    } else {
        name.append(" (");
        push_decimal_to(&mut name, attempt);
        name.append(").");
    }
    name.append(extension);
    name
}

/// Whether `is_taken` may answer `answer` when asked about the name `name`.
pub open spec fn reported<F: Fn(&str) -> bool>(is_taken: F, name: Seq<char>, answer: bool) -> bool {
    exists|s: &str| s@ == name && #[trigger] is_taken.ensures((s,), answer)
}

/// The first free name for a file: `stem.extension`, or else the first of
/// `stem (2).extension`, `stem (3).extension`, ... that `is_taken` reports free.
/// `is_taken` is asked about each name in turn, so the walk can be tested without
/// touching a disk. When every numbered name up to `u32::MAX` is reported
/// taken there is no free name.
pub fn unique_path<F: Fn(&str) -> bool>(stem: &str, extension: &str, is_taken: F) -> (r: Option<
    String,
>)
    requires
        forall|name: &str| #[trigger] is_taken.requires((name,)),
    ensures
        r matches Some(name) ==> exists|attempt: nat|
            1 <= attempt <= u32::MAX && name@ == candidate_name(stem@, extension@, attempt)
                && reported(is_taken, name@, false) && forall|earlier: nat|
                1 <= earlier < attempt ==> reported(
                    is_taken,
                    #[trigger] candidate_name(stem@, extension@, earlier),
                    true,
                ),
        r is None ==> forall|attempt: nat|
            1 <= attempt <= u32::MAX ==> reported(
                is_taken,
                #[trigger] candidate_name(stem@, extension@, attempt),
                true,
            ),
{
    let mut attempt: u32 = 1;
    loop
        invariant
            1 <= attempt,
            forall|name: &str| #[trigger] is_taken.requires((name,)),
            forall|earlier: nat|
                1 <= earlier < attempt ==> reported(
                    is_taken,
                    #[trigger] candidate_name(stem@, extension@, earlier),
                    true,
                ),
        decreases u32::MAX - attempt,
    {
        let name = candidate(stem, extension, attempt);
        let asked = name.as_str();
        let taken = is_taken(asked);
        proof {
            assert(asked@ == candidate_name(stem@, extension@, attempt as nat));
            assert(is_taken.ensures((asked,), taken));
        }
        if !taken {
            assert(reported(is_taken, name@, false));
            return Some(name);
        }
        assert(reported(is_taken, candidate_name(stem@, extension@, attempt as nat), true));
        if attempt == u32::MAX {
            return None;
        }
        attempt = attempt + 1;
    }
}

} // verus!
