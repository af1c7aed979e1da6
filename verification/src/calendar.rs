//! Moments on the local calendar, and the text chrono's formatter makes of
//! them for file names.
use vstd::prelude::*;

verus! {

/// The first year chrono's `NaiveDate` can hold.
pub const FIRST_YEAR: i32 = -262143;

/// The last year chrono's `NaiveDate` can hold.
pub const LAST_YEAR: i32 = 262142;

/// Whether `year` is a leap year of the proleptic Gregorian calendar.
pub open spec fn is_leap_year(year: int) -> bool {
    year % 4 == 0 && (year % 100 != 0 || year % 400 == 0)
}

/// How many days `month` (1 to 12) of `year` has.
pub open spec fn days_in_month(year: int, month: int) -> int {
    if month == 2 {
        if is_leap_year(year) {
            29
        } else {
            28
        }
    } else if month == 4 || month == 6 || month == 9 || month == 11 {
        30
    } else {
        31
    }
}

/// A moment on the calendar, to the millisecond, with no time zone: what a
/// recording or a screenshot is named after.
#[derive(Clone, Copy, Debug, PartialEq, Eq, Structural)]
pub struct CalendarTime {
    pub year: i32,
    pub month: u32,
    pub day: u32,
    pub hour: u32,
    pub minute: u32,
    pub second: u32,
    /// Up to 1999 during a leap second, which only the 59th second can be.
    pub millisecond: u32,
}

impl CalendarTime {
    /// Whether the fields name a moment that exists: a date of the calendar
    /// within chrono's range of years, and a time of day whose milliseconds run
    /// past 999 only in a leap second.
    pub open spec fn is_valid(&self) -> bool {
        &&& FIRST_YEAR <= self.year <= LAST_YEAR
        &&& 1 <= self.month <= 12
        &&& 1 <= self.day <= days_in_month(self.year as int, self.month as int)
        &&& self.hour < 24
        &&& self.minute < 60
        &&& self.second < 60
        &&& (self.millisecond < 1000 || (self.second == 59 && self.millisecond < 2000))
    }

    /// The moment with the given fields, or `None` where they name none.
    pub fn new(
        year: i32,
        month: u32,
        day: u32,
        hour: u32,
        minute: u32,
        second: u32,
        millisecond: u32,
    ) -> (moment: Option<CalendarTime>)
        ensures
            moment matches Some(m) ==> m.is_valid() && m == (CalendarTime {
                year,
                month,
                day,
                hour,
                minute,
                second,
                millisecond,
            }),
            moment is None ==> !(CalendarTime {
                year,
                month,
                day,
                hour,
                minute,
                second,
                millisecond,
            }).is_valid(),
    {
        let moment = CalendarTime { year, month, day, hour, minute, second, millisecond };
        if year < FIRST_YEAR || year > LAST_YEAR || month < 1 || month > 12 || day < 1 {
            return None;
        }
        if hour >= 24 || minute >= 60 || second >= 60 {
            return None;
        }
        if millisecond >= 2000 || (millisecond >= 1000 && second != 59) {
            return None;
        }
        // 262400 is a multiple of 400, so the shift keeps every remainder the
        // leap rule looks at, and makes the year non-negative.
        let shifted: u32 = (year as i64 + 262400) as u32;
        assert(shifted % 4 == 0 <==> (year as int) % 4 == 0);
        assert(shifted % 100 == 0 <==> (year as int) % 100 == 0);
        assert(shifted % 400 == 0 <==> (year as int) % 400 == 0);
        let leap = shifted % 4 == 0 && (shifted % 100 != 0 || shifted % 400 == 0);
        let days: u32 = if month == 2 {
            if leap {
                29
            } else {
                28
            }
        } else if month == 4 || month == 6 || month == 9 || month == 11 {
            30
        } else {
            31
        };
        if day > days {
            None
        } else {
            Some(moment)
        }
    }
}

/// Whether `pattern`, from `at` on, is made of literal characters and the
/// strftime specifiers `%Y`, `%m`, `%d`, `%H`, `%M`, `%S` and `%.3f`, all of
/// which chrono's formatter documents.
pub open spec fn plain_pattern_from(pattern: Seq<char>, at: int) -> bool
    decreases pattern.len() - at,
{
    if at < 0 || at >= pattern.len() {
        true
    } else if pattern[at] != '%' {
        plain_pattern_from(pattern, at + 1)
    } else if at + 1 < pattern.len() && (pattern[at + 1] == 'Y' || pattern[at + 1] == 'm'
        || pattern[at + 1] == 'd' || pattern[at + 1] == 'H' || pattern[at + 1] == 'M'
        || pattern[at + 1] == 'S') {
        plain_pattern_from(pattern, at + 2)
    } else if at + 3 < pattern.len() && pattern[at + 1] == '.' && pattern[at + 2] == '3'
        && pattern[at + 3] == 'f' {
        plain_pattern_from(pattern, at + 4)
    } else {
        false
    }
}

/// Whether `pattern` is made of literal characters and the documented
/// specifiers alone (see `plain_pattern_from`): chrono formats such a pattern
/// without fail.
pub open spec fn is_plain_pattern(pattern: Seq<char>) -> bool {
    plain_pattern_from(pattern, 0)
}

/// The decimal digit `d` (0 to 9) as a character.
pub open spec fn digit(d: int) -> char {
    seq!['0', '1', '2', '3', '4', '5', '6', '7', '8', '9'][d]
}

/// The last `width` decimal digits of `n`, zero-padded.
pub open spec fn digits(n: int, width: nat) -> Seq<char>
    decreases width,
{
    if width == 0 {
        Seq::empty()
    } else {
        digits(n / 10, (width - 1) as nat).push(digit(n % 10))
    }
}

/// `digits` gives exactly `width` characters.
pub proof fn lemma_digits_len(n: int, width: nat)
    ensures
        digits(n, width).len() == width,
    decreases width,
{
    if width > 0 {
        lemma_digits_len(n / 10, (width - 1) as nat);
    }
}

/// Ten to the power `w`.
pub open spec fn pow10(w: nat) -> int
    decreases w,
{
    if w == 0 {
        1
    } else {
        10 * pow10((w - 1) as nat)
    }
}

/// Whether `a` and `b` agree before position `i` and `a` has the smaller
/// character there.
pub open spec fn differs_first_at(a: Seq<char>, b: Seq<char>, i: int) -> bool {
    &&& 0 <= i < a.len()
    &&& i < b.len()
    &&& a.take(i) == b.take(i)
    &&& (a[i] as u32) < (b[i] as u32)
}

/// Whether text `a` sorts before text `b`, character by character, as strings
/// compare: at the first place they differ `a` has the smaller character, or
/// `a` is a proper beginning of `b`.
pub open spec fn text_before(a: Seq<char>, b: Seq<char>) -> bool {
    (exists|i: int| #[trigger] differs_first_at(a, b, i)) || (a.len() < b.len() && a == b.take(
        a.len() as int,
    ))
}

/// Text put after two texts does not change where they first differ.
pub proof fn lemma_differs_then(a: Seq<char>, b: Seq<char>, c: Seq<char>, d: Seq<char>, i: int)
    requires
        differs_first_at(a, b, i),
    ensures
        differs_first_at(a + c, b + d, i),
{
    assert((a + c).take(i) =~= a.take(i));
    assert((b + d).take(i) =~= b.take(i));
}

/// The same text put before two texts moves where they first differ along by
/// its length.
pub proof fn lemma_differs_after(p: Seq<char>, a: Seq<char>, b: Seq<char>, i: int)
    requires
        differs_first_at(a, b, i),
    ensures
        differs_first_at(p + a, p + b, p.len() + i),
{
    assert((p + a).take(p.len() + i) =~= p + a.take(i));
    assert((p + b).take(p.len() + i) =~= p + b.take(i));
}

/// Zero-padded digits of the same width sort as the numbers do.
pub proof fn lemma_digits_sort(x: int, y: int, w: nat)
    requires
        0 <= x < y < pow10(w),
    ensures
        exists|i: int| #[trigger] differs_first_at(digits(x, w), digits(y, w), i),
    decreases w,
{
    if w == 0 {
        assert(false);
    } else {
        let v = (w - 1) as nat;
        lemma_digits_len(x / 10, v);
        lemma_digits_len(y / 10, v);
        assert(y / 10 < pow10(v)) by (nonlinear_arith)
            requires
                y < pow10(w),
                pow10(w) == 10 * pow10(v),
                0 <= y,
        ;
        assert(x / 10 <= y / 10) by (nonlinear_arith)
            requires
                x < y,
                0 <= x,
        ;
        if x / 10 < y / 10 {
            lemma_digits_sort(x / 10, y / 10, v);
            let i = choose|i: int| #[trigger] differs_first_at(digits(x / 10, v), digits(y / 10, v), i);
            lemma_differs_then(digits(x / 10, v), digits(y / 10, v), seq![digit(x % 10)], seq![digit(y % 10)], i);
            assert(digits(x, w) == digits(x / 10, v) + seq![digit(x % 10)]);
            assert(digits(y, w) == digits(y / 10, v) + seq![digit(y % 10)]);
            assert(differs_first_at(digits(x, w), digits(y, w), i));
        } else {
            assert(x % 10 < y % 10);
            let dx = digits(x, w);
            let dy = digits(y, w);
            assert(dx.take(v as int) =~= digits(x / 10, v));
            assert(dy.take(v as int) =~= digits(y / 10, v));
            assert(differs_first_at(dx, dy, v as int));
        }
    }
}

/// How many decimal digits `n` takes, at least one.
pub open spec fn digit_count(n: nat) -> nat
    decreases n,
{
    if n < 10 {
        1
    } else {
        1 + digit_count(n / 10)
    }
}

/// What chrono prints for a year: four zero-padded digits for the years 0 to
/// 9999, and otherwise a sign (`+` or `-`) and the year's digits, zero-padded
/// to at least four.
pub open spec fn year_text(year: int) -> Seq<char> {
    if 0 <= year <= 9999 {
        digits(year, 4)
    } else {
        let a: nat = if year < 0 {
            (-year) as nat
        } else {
            year as nat
        };
        let w: nat = if digit_count(a) < 4 {
            4
        } else {
            digit_count(a)
        };
        seq![
            if year < 0 {
                '-'
            } else {
                '+'
            },
        ] + digits(a as int, w)
    }
}

/// A year's text is four characters for the years 0 to 9999, and a sign and
/// at least four digits otherwise.
pub proof fn lemma_year_text_len(year: int)
    ensures
        0 <= year <= 9999 ==> year_text(year).len() == 4,
        !(0 <= year <= 9999) ==> year_text(year).len() >= 5,
{
    if 0 <= year <= 9999 {
        lemma_digits_len(year, 4);
    } else {
        let a: nat = if year < 0 {
            (-year) as nat
        } else {
            year as nat
        };
        let w: nat = if digit_count(a) < 4 {
            4
        } else {
            digit_count(a)
        };
        lemma_digits_len(a as int, w);
    }
}

/// What chrono prints for the numeric specifier `%c` of `at`, zero-padded:
/// the year (see `year_text`), two digits of the month, the day, the hour, the
/// minute and the second (a leap second shows as 60).
pub open spec fn field_text(c: char, at: CalendarTime) -> Seq<char> {
    if c == 'Y' {
        year_text(at.year as int)
    } else if c == 'm' {
        digits(at.month as int, 2)
    } else if c == 'd' {
        digits(at.day as int, 2)
    } else if c == 'H' {
        digits(at.hour as int, 2)
    } else if c == 'M' {
        digits(at.minute as int, 2)
    } else {
        digits(at.second + at.millisecond / 1000, 2)
    }
}

/// The text chrono makes of `at` under `pattern`, from `i` on: literal
/// characters as they stand, each numeric specifier as `field_text` says, and
/// `%.3f` as a point and three digits of the millisecond within its second.
pub open spec fn plain_text_from(pattern: Seq<char>, i: int, at: CalendarTime) -> Seq<char>
    decreases pattern.len() - i,
{
    if i < 0 || i >= pattern.len() {
        Seq::empty()
    } else if pattern[i] != '%' {
        seq![pattern[i]] + plain_text_from(pattern, i + 1, at)
    } else if i + 1 < pattern.len() && (pattern[i + 1] == 'Y' || pattern[i + 1] == 'm'
        || pattern[i + 1] == 'd' || pattern[i + 1] == 'H' || pattern[i + 1] == 'M'
        || pattern[i + 1] == 'S') {
        field_text(pattern[i + 1], at) + plain_text_from(pattern, i + 2, at)
    } else if i + 3 < pattern.len() && pattern[i + 1] == '.' && pattern[i + 2] == '3'
        && pattern[i + 3] == 'f' {
        seq!['.'] + digits((at.millisecond % 1000) as int, 3) + plain_text_from(pattern, i + 4, at)
    } else {
        Seq::empty()
    }
}

/// The text chrono's formatter makes of `at` under `pattern`.
///
/// Trusted: builds the `NaiveDateTime` with `NaiveDate::from_ymd_opt` and
/// `NaiveDate::and_hms_milli_opt`, which accept exactly the valid moments
/// (`is_valid` states chrono's documented rules), then calls
/// `NaiveDateTime::format` and turns the result into a `String`. For a pattern
/// of literal characters and documented specifiers the formatting cannot fail.
/// The contract states the whole text (`plain_text_from`), as chrono's strftime
/// parser and numeric formatting show it: literal characters, white space
/// among them, are written as they stand and every item in the pattern's
/// order; every specifier but the year is zero-padded to a fixed width, the
/// year as `year_text` says (chrono's `write_year`), the point is "." with no
/// locale, and `%.3f` prints the nanoseconds' thousandths of a second modulo
/// 1000.
#[verifier::external_body]
pub(crate) fn format_calendar_time(at: &CalendarTime, pattern: &str) -> (text: String)
    requires
        at.is_valid(),
        is_plain_pattern(pattern@),
    ensures
        text@ == plain_text_from(pattern@, 0, *at),
{
    let date = chrono::NaiveDate::from_ymd_opt(at.year, at.month, at.day).unwrap();
    let moment = date.and_hms_milli_opt(at.hour, at.minute, at.second, at.millisecond).unwrap();
    moment.format(pattern).to_string()
}

} // verus!
