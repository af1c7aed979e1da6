//! Encoder settings and the poster still: the parts of writing a movie that are
//! arithmetic rather than platform.
use vstd::prelude::*;
use vstd::string::*;
use crate::calendar::{
    differs_first_at, digits, field_text, lemma_differs_after, lemma_differs_then, lemma_digits_len,
    lemma_digits_sort, lemma_year_text_len, plain_text_from, pow10, text_before, year_text,
    CalendarTime, format_calendar_time, plain_pattern_from,
};

verus! {

/// Bits spent per ten pixels of pixel rate: the bitrate is a tenth of a bit per
/// pixel per frame.
pub const PIXELS_PER_BIT: u128 = 10;

/// Below this a capture of a small window looks worse than the screen it came
/// from.
pub const MIN_BITRATE_BPS: i32 = 1_000_000;

/// Hardware H.264 encoders top out well below this.
pub const MAX_BITRATE_BPS: i32 = 200_000_000;

/// A tenth of the pixel rate, rounded half up, kept between the two bounds.
pub open spec fn bitrate_spec(width: u32, height: u32, fps: u32) -> int {
    let bits = (width * height * fps + 5) / 10;
    if bits < MIN_BITRATE_BPS {
        MIN_BITRATE_BPS as int
    } else if bits > MAX_BITRATE_BPS {
        MAX_BITRATE_BPS as int
    } else {
        bits
    }
}

/// The average bitrate to ask the encoder for, in bits per second: a tenth of
/// a bit per pixel per frame, so a 4K 60fps capture and a 720p 30fps one land
/// at proportionate quality.
pub fn bitrate_bps(width: u32, height: u32, fps: u32) -> (r: i32)
    ensures
        r == bitrate_spec(width, height, fps),
        MIN_BITRATE_BPS <= r <= MAX_BITRATE_BPS,
{
    let w = width as u128;
    let h = height as u128;
    let f = fps as u128;
    assert(w * h <= 0xffff_ffff * 0xffff_ffff) by (nonlinear_arith)
        requires
            w <= 0xffff_ffff,
            h <= 0xffff_ffff,
    ;
    let area = w * h;
    assert(area * f <= 0xffff_ffff * 0xffff_ffff * 0xffff_ffff) by (nonlinear_arith)
        requires
            area <= 0xffff_ffff * 0xffff_ffff,
            f <= 0xffff_ffff,
    ;
    let pixels_per_second = area * f;
    let bits = (pixels_per_second + 5) / PIXELS_PER_BIT;
    if bits < MIN_BITRATE_BPS as u128 {
        MIN_BITRATE_BPS
    } else if bits > MAX_BITRATE_BPS as u128 {
        MAX_BITRATE_BPS
    } else {
        bits as i32
    }
}

/// `value` with its lowest bit cleared: H.264 subsamples chroma, so an odd
/// edge has nowhere to put half a pixel.
pub fn even(value: u32) -> (r: u32)
    ensures
        r == value - value % 2,
{
    value - value % 2
}

/// The container a movie is written in.
#[derive(Clone, Copy, Debug, PartialEq, Eq, Structural)]
pub enum ContainerFormat {
    /// An MPEG-4 file: what recordings used to be written as, kept as the
    /// control the fragmented QuickTime movie is measured against.
    Mp4,
    /// What recordings are written as. Movie fragments are a QuickTime feature
    /// that .mp4 merely borrows, and only QuickTime survives being fragmented.
    QuickTime,
}

/// The file extension that names `format`.
pub open spec fn container_extension(format: ContainerFormat) -> Seq<char> {
    match format {
        ContainerFormat::Mp4 => "mp4"@,
        ContainerFormat::QuickTime => "mov"@,
    }
}

impl ContainerFormat {
    /// The file extension that names the container: everything that opens the
    /// file afterwards reads the name, so the two have to agree.
    pub fn extension(self) -> (r: &'static str)
        ensures
            r@ == container_extension(self),
    {
        match self {
            ContainerFormat::Mp4 => "mp4",
            ContainerFormat::QuickTime => "mov",
        }
    }
}

/// The moment a working file is named after, biggest unit first, as chrono
/// prints it: `YYYYMMDD-HHMMSS.mmm` for the years 0 to 9999 (see `year_text`
/// for the others).
pub open spec fn moment_text(t: CalendarTime) -> Seq<char> {
    year_text(t.year as int) + digits(t.month as int, 2) + digits(t.day as int, 2) + seq!['-']
        + digits(t.hour as int, 2) + digits(t.minute as int, 2) + field_text('S', t) + seq!['.']
        + digits((t.millisecond % 1000) as int, 3)
}

/// The working file's name of a movie started at `t`.
pub open spec fn movie_name(t: CalendarTime) -> Seq<char> {
    "recording-"@ + moment_text(t) + ".mov"@
}

/// The working file's name of an audio-only recording started at `t`.
pub open spec fn audio_name(t: CalendarTime) -> Seq<char> {
    "audio-"@ + moment_text(t) + ".mov"@
}

/// A movie's working-file pattern makes `movie_name` of a moment.
proof fn lemma_movie_name_text(t: CalendarTime)
    ensures
        plain_text_from("recording-%Y%m%d-%H%M%S%.3f.mov"@, 0, t) == movie_name(t),
{
    reveal_strlit("recording-%Y%m%d-%H%M%S%.3f.mov");
    let p = "recording-%Y%m%d-%H%M%S%.3f.mov"@;
    let e31 = Seq::<char>::empty();
    assert(plain_text_from(p, 31, t) == e31);
    let e30 = seq!['v'] + e31;
    assert(plain_text_from(p, 30, t) == e30);
    let e29 = seq!['o'] + e30;
    assert(plain_text_from(p, 29, t) == e29);
    let e28 = seq!['m'] + e29;
    assert(plain_text_from(p, 28, t) == e28);
    let e27 = seq!['.'] + e28;
    assert(plain_text_from(p, 27, t) == e27);
    let e23 = seq!['.'] + digits((t.millisecond % 1000) as int, 3) + e27;
    assert(plain_text_from(p, 23, t) == e23);
    let e21 = field_text('S', t) + e23;
    assert(plain_text_from(p, 21, t) == e21);
    let e19 = field_text('M', t) + e21;
    assert(plain_text_from(p, 19, t) == e19);
    let e17 = field_text('H', t) + e19;
    assert(plain_text_from(p, 17, t) == e17);
    let e16 = seq!['-'] + e17;
    assert(plain_text_from(p, 16, t) == e16);
    let e14 = field_text('d', t) + e16;
    assert(plain_text_from(p, 14, t) == e14);
    let e12 = field_text('m', t) + e14;
    assert(plain_text_from(p, 12, t) == e12);
    let e10 = field_text('Y', t) + e12;
    assert(plain_text_from(p, 10, t) == e10);
    let e9 = seq!['-'] + e10;
    assert(plain_text_from(p, 9, t) == e9);
    let e8 = seq!['g'] + e9;
    assert(plain_text_from(p, 8, t) == e8);
    let e7 = seq!['n'] + e8;
    assert(plain_text_from(p, 7, t) == e7);
    let e6 = seq!['i'] + e7;
    assert(plain_text_from(p, 6, t) == e6);
    let e5 = seq!['d'] + e6;
    assert(plain_text_from(p, 5, t) == e5);
    let e4 = seq!['r'] + e5;
    assert(plain_text_from(p, 4, t) == e4);
    let e3 = seq!['o'] + e4;
    assert(plain_text_from(p, 3, t) == e3);
    let e2 = seq!['c'] + e3;
    assert(plain_text_from(p, 2, t) == e2);
    let e1 = seq!['e'] + e2;
    assert(plain_text_from(p, 1, t) == e1);
    let e0 = seq!['r'] + e1;
    assert(plain_text_from(p, 0, t) == e0);
    reveal_strlit("recording-");
    reveal_strlit(".mov");
    lemma_year_text_len(t.year as int);
    lemma_digits_len(t.month as int, 2);
    lemma_digits_len(t.day as int, 2);
    lemma_digits_len(t.hour as int, 2);
    lemma_digits_len(t.minute as int, 2);
    lemma_digits_len(t.second + t.millisecond / 1000, 2);
    lemma_digits_len((t.millisecond % 1000) as int, 3);
    assert(e27 =~= ".mov"@);
    assert(e10 =~= moment_text(t) + ".mov"@);
    assert(e0 =~= movie_name(t));
}

/// An audio-only working-file pattern makes `audio_name` of a moment.
proof fn lemma_audio_name_text(t: CalendarTime)
    ensures
        plain_text_from("audio-%Y%m%d-%H%M%S%.3f.mov"@, 0, t) == audio_name(t),
{
    reveal_strlit("audio-%Y%m%d-%H%M%S%.3f.mov");
    let p = "audio-%Y%m%d-%H%M%S%.3f.mov"@;
    let e27 = Seq::<char>::empty();
    assert(plain_text_from(p, 27, t) == e27);
    let e26 = seq!['v'] + e27;
    assert(plain_text_from(p, 26, t) == e26);
    let e25 = seq!['o'] + e26;
    assert(plain_text_from(p, 25, t) == e25);
    let e24 = seq!['m'] + e25;
    assert(plain_text_from(p, 24, t) == e24);
    let e23 = seq!['.'] + e24;
    assert(plain_text_from(p, 23, t) == e23);
    let e19 = seq!['.'] + digits((t.millisecond % 1000) as int, 3) + e23;
    assert(plain_text_from(p, 19, t) == e19);
    let e17 = field_text('S', t) + e19;
    assert(plain_text_from(p, 17, t) == e17);
    let e15 = field_text('M', t) + e17;
    assert(plain_text_from(p, 15, t) == e15);
    let e13 = field_text('H', t) + e15;
    assert(plain_text_from(p, 13, t) == e13);
    let e12 = seq!['-'] + e13;
    assert(plain_text_from(p, 12, t) == e12);
    let e10 = field_text('d', t) + e12;
    assert(plain_text_from(p, 10, t) == e10);
    let e8 = field_text('m', t) + e10;
    assert(plain_text_from(p, 8, t) == e8);
    let e6 = field_text('Y', t) + e8;
    assert(plain_text_from(p, 6, t) == e6);
    let e5 = seq!['-'] + e6;
    assert(plain_text_from(p, 5, t) == e5);
    let e4 = seq!['o'] + e5;
    assert(plain_text_from(p, 4, t) == e4);
    let e3 = seq!['i'] + e4;
    assert(plain_text_from(p, 3, t) == e3);
    let e2 = seq!['d'] + e3;
    assert(plain_text_from(p, 2, t) == e2);
    let e1 = seq!['u'] + e2;
    assert(plain_text_from(p, 1, t) == e1);
    let e0 = seq!['a'] + e1;
    assert(plain_text_from(p, 0, t) == e0);
    reveal_strlit("audio-");
    reveal_strlit(".mov");
    lemma_year_text_len(t.year as int);
    lemma_digits_len(t.month as int, 2);
    lemma_digits_len(t.day as int, 2);
    lemma_digits_len(t.hour as int, 2);
    lemma_digits_len(t.minute as int, 2);
    lemma_digits_len(t.second + t.millisecond / 1000, 2);
    lemma_digits_len((t.millisecond % 1000) as int, 3);
    assert(e23 =~= ".mov"@);
    assert(e6 =~= moment_text(t) + ".mov"@);
    assert(e0 =~= audio_name(t));
}

/// The name of the working file a recording that started at `started_at` is
/// written to: `recording-` and the moment, biggest unit first, to the
/// millisecond, then `.mov`. Names so made sort by time, and two recordings
/// started in the same second do not collide.
///
/// A QuickTime movie, not an .mp4, because only QuickTime survives being
/// written in fragments and only a fragmented file is worth anything if the
/// app dies mid-recording. The name ends in the extension of the container the
/// file is.
pub fn temp_file_name(started_at: CalendarTime) -> (name: String)
    requires
        started_at.is_valid(),
    ensures
        "recording-"@.is_prefix_of(name@),
        (seq!['.'] + container_extension(ContainerFormat::QuickTime)).is_suffix_of(name@),
        name@ == movie_name(started_at),
{
    let pattern = "recording-%Y%m%d-%H%M%S%.3f.mov";
    proof {
        reveal_strlit("recording-%Y%m%d-%H%M%S%.3f.mov");
        reveal_with_fuel(plain_pattern_from, 32);
        lemma_movie_name_text(started_at);
    }
    let name = format_calendar_time(&started_at, pattern);
    proof {
        reveal_strlit("recording-");
        reveal_strlit(".mov");
        reveal_strlit("mov");
        assert(name@.subrange(0, 10) =~= "recording-"@);
        assert(name@.subrange(name@.len() - 4, name@.len() as int) =~= seq!['.'] + container_extension(
            ContainerFormat::QuickTime,
        ));
    }
    name
}

/// The name of the working file an audio-only recording that started at
/// `started_at` is written to: as a movie's, under `audio-`, so the two kinds
/// never share a name.
pub fn audio_temp_file_name(started_at: CalendarTime) -> (name: String)
    requires
        started_at.is_valid(),
    ensures
        "audio-"@.is_prefix_of(name@),
        (seq!['.'] + container_extension(ContainerFormat::QuickTime)).is_suffix_of(name@),
        name@ == audio_name(started_at),
{
    let pattern = "audio-%Y%m%d-%H%M%S%.3f.mov";
    proof {
        reveal_strlit("audio-%Y%m%d-%H%M%S%.3f.mov");
        reveal_with_fuel(plain_pattern_from, 32);
        lemma_audio_name_text(started_at);
    }
    let name = format_calendar_time(&started_at, pattern);
    proof {
        reveal_strlit("audio-");
        reveal_strlit(".mov");
        reveal_strlit("mov");
        assert(name@.subrange(0, 6) =~= "audio-"@);
        assert(name@.subrange(name@.len() - 4, name@.len() as int) =~= seq!['.'] + container_extension(
            ContainerFormat::QuickTime,
        ));
    }
    name
}

/// Audio-only working files are named apart from movies: a name led by
/// `recording-`, as every `temp_file_name` is, is never one led by `audio-`, as
/// every `audio_temp_file_name` is, whatever moments the two were made of.
pub proof fn law_audio_files_are_named_apart_from_movies(movie_name: Seq<char>, audio_name: Seq<char>)
    requires
        "recording-"@.is_prefix_of(movie_name),
        "audio-"@.is_prefix_of(audio_name),
    ensures
        movie_name != audio_name,
{
    reveal_strlit("recording-");
    reveal_strlit("audio-");
    assert(movie_name.subrange(0, 10)[0] == movie_name[0]);
    assert(audio_name.subrange(0, 6)[0] == audio_name[0]);
    assert(movie_name[0] != audio_name[0]);
}

/// Texts joined in order.
pub open spec fn joined(pieces: Seq<Seq<char>>) -> Seq<char>
    decreases pieces.len(),
{
    if pieces.len() == 0 {
        Seq::empty()
    } else {
        joined(pieces.drop_last()) + pieces.last()
    }
}

/// Two runs of pieces that agree before piece `k` and first differ inside it
/// first differ, joined, at that place.
proof fn lemma_joined_differs(pa: Seq<Seq<char>>, pb: Seq<Seq<char>>, k: int, i: int)
    requires
        pa.len() == pb.len(),
        0 <= k < pa.len(),
        forall|j: int| 0 <= j < k ==> pa[j] == pb[j],
        differs_first_at(pa[k], pb[k], i),
    ensures
        differs_first_at(joined(pa), joined(pb), joined(pa.take(k)).len() + i),
    decreases pa.len(),
{
    let n = pa.len() - 1;
    if k == n {
        assert(pa.drop_last() =~= pb.drop_last());
        assert(pa.take(k) =~= pa.drop_last());
        lemma_differs_after(joined(pa.drop_last()), pa[k], pb[k], i);
    } else {
        assert(pa.drop_last().take(k) =~= pa.take(k));
        lemma_joined_differs(pa.drop_last(), pb.drop_last(), k, i);
        lemma_differs_then(
            joined(pa.drop_last()),
            joined(pb.drop_last()),
            pa.last(),
            pb.last(),
            joined(pa.take(k)).len() + i,
        );
    }
}

/// The pieces `moment_text` joins.
pub open spec fn moment_pieces(t: CalendarTime) -> Seq<Seq<char>> {
    seq![
        year_text(t.year as int),
        digits(t.month as int, 2),
        digits(t.day as int, 2),
        seq!['-'],
        digits(t.hour as int, 2),
        digits(t.minute as int, 2),
        field_text('S', t),
        seq!['.'],
        digits((t.millisecond % 1000) as int, 3),
    ]
}

/// Whether the moment `a` comes before the moment `b`: by year, then month,
/// day, hour, minute, second and millisecond.
pub open spec fn moment_before(a: CalendarTime, b: CalendarTime) -> bool {
    ||| a.year < b.year
    ||| a.year == b.year && a.month < b.month
    ||| a.year == b.year && a.month == b.month && a.day < b.day
    ||| a.year == b.year && a.month == b.month && a.day == b.day && a.hour < b.hour
    ||| a.year == b.year && a.month == b.month && a.day == b.day && a.hour == b.hour && a.minute
        < b.minute
    ||| a.year == b.year && a.month == b.month && a.day == b.day && a.hour == b.hour && a.minute
        == b.minute && a.second < b.second
    ||| a.year == b.year && a.month == b.month && a.day == b.day && a.hour == b.hour && a.minute
        == b.minute && a.second == b.second && a.millisecond < b.millisecond
}

/// The printed moments of two moments sort as the moments do.
proof fn lemma_moment_text_sorts(a: CalendarTime, b: CalendarTime)
    requires
        a.is_valid(),
        b.is_valid(),
        0 <= a.year <= 9999,
        0 <= b.year <= 9999,
        moment_before(a, b),
    ensures
        exists|i: int| #[trigger] differs_first_at(moment_text(a), moment_text(b), i),
{
    let pa = moment_pieces(a);
    let pb = moment_pieces(b);
    assert(joined(pa) =~= moment_text(a)) by {
        reveal_with_fuel(joined, 10);
        assert(pa.take(0) =~= Seq::<Seq<char>>::empty());
    }
    assert(joined(pb) =~= moment_text(b)) by {
        reveal_with_fuel(joined, 10);
    }
    reveal_with_fuel(pow10, 5);
    let sa = a.second + a.millisecond / 1000;
    let sb = b.second + b.millisecond / 1000;
    let ma = a.millisecond % 1000;
    let mb = b.millisecond % 1000;
    let k: int = if a.year < b.year {
        lemma_digits_sort(a.year as int, b.year as int, 4);
        0
    } else if a.month < b.month {
        lemma_digits_sort(a.month as int, b.month as int, 2);
        1
    } else if a.day < b.day {
        lemma_digits_sort(a.day as int, b.day as int, 2);
        2
    } else if a.hour < b.hour {
        lemma_digits_sort(a.hour as int, b.hour as int, 2);
        4
    } else if a.minute < b.minute {
        lemma_digits_sort(a.minute as int, b.minute as int, 2);
        5
    } else if sa < sb {
        lemma_digits_sort(sa, sb, 2);
        6
    } else {
        assert(sa == sb && ma < mb);
        lemma_digits_sort(ma as int, mb as int, 3);
        8
    };
    let i = choose|i: int| #[trigger] differs_first_at(pa[k], pb[k], i);
    lemma_joined_differs(pa, pb, k, i);
    assert(differs_first_at(moment_text(a), moment_text(b), joined(pa.take(k)).len() + i));
}

/// Working files are named so that they sort by time: a recording started
/// earlier gets a name that sorts before a later one's, in the years 0 to
/// 9999, and likewise for audio-only recordings.
pub proof fn law_working_file_names_sort_by_time(a: CalendarTime, b: CalendarTime)
    requires
        a.is_valid(),
        b.is_valid(),
        0 <= a.year <= 9999,
        0 <= b.year <= 9999,
        moment_before(a, b),
    ensures
        text_before(movie_name(a), movie_name(b)),
        text_before(audio_name(a), audio_name(b)),
{
    lemma_moment_text_sorts(a, b);
    let i = choose|i: int| #[trigger] differs_first_at(moment_text(a), moment_text(b), i);
    reveal_strlit("recording-");
    reveal_strlit("audio-");
    lemma_differs_after("recording-"@, moment_text(a), moment_text(b), i);
    lemma_differs_then("recording-"@ + moment_text(a), "recording-"@ + moment_text(b), ".mov"@, ".mov"@, 10 + i);
    lemma_differs_after("audio-"@, moment_text(a), moment_text(b), i);
    lemma_differs_then("audio-"@ + moment_text(a), "audio-"@ + moment_text(b), ".mov"@, ".mov"@, 6 + i);
    assert(differs_first_at(movie_name(a), movie_name(b), 10 + i));
    assert(differs_first_at(audio_name(a), audio_name(b), 6 + i));
}

/// `edge * max_edge / longest`, rounded half up, and never below one.
pub open spec fn scaled_edge(edge: u32, max_edge: u32, longest: u32) -> int {
    let scaled = (2 * edge * max_edge + longest) / (2 * longest);
    if scaled < 1 {
        1
    } else {
        scaled
    }
}

/// The size a poster of a `width` by `height` capture is drawn at: scaled down
/// to fit `max_edge` on its longest edge, never up.
pub open spec fn poster_size_spec(width: u32, height: u32, max_edge: u32) -> (int, int) {
    let longest = if width >= height {
        width
    } else {
        height
    };
    if longest == 0 {
        (0, 0)
    } else if longest <= max_edge {
        (width as int, height as int)
    } else {
        (scaled_edge(width, max_edge, longest), scaled_edge(height, max_edge, longest))
    }
}

/// Scales `edge` by `max_edge / longest`, rounding half up and never below one.
fn scale_edge(edge: u32, max_edge: u32, longest: u32) -> (r: u32)
    requires
        0 < longest,
        edge <= longest,
        max_edge < longest,
    ensures
        r == scaled_edge(edge, max_edge, longest),
{
    let e = edge as u128;
    let m = max_edge as u128;
    let l = longest as u128;
    assert(2 * e * m <= 2 * l * l) by (nonlinear_arith)
        requires
            e <= l,
            m < l,
    ;
    assert(l * l <= 0xffff_ffff * 0xffff_ffff) by (nonlinear_arith)
        requires
            l <= 0xffff_ffff,
    ;
    assert(2 * e * m + l <= 4 * 0xffff_ffff * 0xffff_ffff) by (nonlinear_arith)
        requires
            e <= 0xffff_ffff,
            m <= 0xffff_ffff,
            l <= 0xffff_ffff,
    ;
    let scaled = (2 * e * m + l) / (2 * l);
    assert(scaled <= m) by (nonlinear_arith)
        requires
            scaled == (2 * e * m + l) / (2 * l),
            e <= l,
            m < l,
            0 < l,
    ;
    if scaled < 1 {
        1
    } else {
        scaled as u32
    }
}

/// Scales a capture down to fit `max_edge` on its longest edge, never up. An
/// empty capture has an empty poster.
pub fn poster_size(width: u32, height: u32, max_edge: u32) -> (r: (u32, u32))
    ensures
        (r.0 as int, r.1 as int) == poster_size_spec(width, height, max_edge),
{
    let longest = if width >= height {
        width
    } else {
        height
    };
    if longest == 0 {
        return (0, 0);
    }
    if longest <= max_edge {
        return (width, height);
    }
    (scale_edge(width, max_edge, longest), scale_edge(height, max_edge, longest))
}

/// One plane of a captured frame. The stride is the buffer's own row pitch,
/// which for a hardware capture is padded well past the image's width.
pub struct Plane<'a> {
    pub bytes: &'a [u8],
    pub stride: usize,
}

/// The BT.709 video-range conversion, as the `f32` constants 1.1643835 (the
/// luma scale), 1.7927411, -0.2132486, -0.5329093 and 2.1124018 (the chroma
/// weights). Every quantity of the conversion is a whole number of 2^-26ths,
/// so each is held as that number: these are the constants times 2^26, exactly.
pub const LUMA_SCALE: i64 = 78140456;

pub const R_V: i64 = 120308816;

pub const G_U: i64 = -14310871;

pub const G_V: i64 = -35762936;

pub const B_U: i64 = 141760880;

/// One, in 2^-26ths.
pub const ONE: i64 = 67108864;

/// The unit in the last place of an `f32` of magnitude `a` 2^-26ths (for the
/// magnitudes the conversion meets): one below 2^24, doubling with each
/// doubling of `a` beyond.
pub open spec fn f32_unit(a: nat) -> nat
    decreases a,
{
    if a < 0x100_0000 {
        1
    } else {
        2 * f32_unit(a / 2)
    }
}

/// `a` rounded to the nearest multiple of its unit in the last place, ties to
/// the even multiple: how `f32` arithmetic rounds an exact result.
pub open spec fn round_magnitude(a: nat) -> nat {
    let m = f32_unit(a);
    let q = a / m;
    let r = a % m;
    if 2 * r > m || (2 * r == m && q % 2 == 1) {
        ((q + 1) * m) as nat
    } else {
        (q * m) as nat
    }
}

/// `x` 2^-26ths rounded as `f32` arithmetic rounds it; rounding to nearest is
/// the same on either side of zero.
pub open spec fn round_f32(x: int) -> int {
    if x >= 0 {
        round_magnitude(x as nat) as int
    } else {
        -(round_magnitude((-x) as nat) as int)
    }
}

/// An intensity as a byte: held to 0..=255 and then its whole part, as
/// `clamp(0.0, 255.0) as u8` makes it.
pub open spec fn to_channel(x: int) -> u8 {
    if x < 0 {
        0
    } else if x / ONE as int > 255 {
        255
    } else {
        (x / ONE as int) as u8
    }
}

/// The luminance of a sample: the luma scale times `y - 16`, as an `f32`.
pub open spec fn luminance_of(y: u8) -> int {
    round_f32(LUMA_SCALE * (y - 16))
}

/// The red, green and blue of one video-range sample, computed as `f32`
/// arithmetic computes them: each product and each sum rounded, left to right.
pub open spec fn red_of(y: u8, v: u8) -> u8 {
    to_channel(round_f32(luminance_of(y) + round_f32(R_V * (v - 128))))
}

pub open spec fn green_of(y: u8, u: u8, v: u8) -> u8 {
    to_channel(
        round_f32(
            round_f32(luminance_of(y) + round_f32(G_U * (u - 128))) + round_f32(G_V * (v - 128)),
        ),
    )
}

pub open spec fn blue_of(y: u8, u: u8) -> u8 {
    to_channel(round_f32(luminance_of(y) + round_f32(B_U * (u - 128))))
}

/// The byte at `index` of a plane, or `default` when the plane is shorter
/// than the frame claims.
pub open spec fn plane_byte(bytes: Seq<u8>, index: int, default: u8) -> u8 {
    if 0 <= index < bytes.len() {
        bytes[index]
    } else {
        default
    }
}

/// The source row or column an output one samples: nearest neighbour,
/// `out * size / out_size`, held inside the frame.
pub open spec fn source_coordinate(out: int, size: int, out_size: int) -> int {
    let c = out * size / out_size;
    if c < size - 1 {
        c
    } else {
        size - 1
    }
}

/// The luma and chroma samples the output pixel at (`ox`, `oy`) is drawn from.
pub open spec fn poster_samples(
    luma: Seq<u8>,
    luma_stride: int,
    chroma: Seq<u8>,
    chroma_stride: int,
    width: int,
    height: int,
    out_width: int,
    out_height: int,
    ox: int,
    oy: int,
) -> (u8, u8, u8) {
    let sy = source_coordinate(oy, height, out_height);
    let sx = source_coordinate(ox, width, out_width);
    let chroma_at = (sy / 2) * chroma_stride + (sx / 2) * 2;
    (
        plane_byte(luma, sy * luma_stride + sx, 16),
        plane_byte(chroma, chroma_at, 128),
        plane_byte(chroma, chroma_at + 1, 128),
    )
}

/// Channel `c` (red, green, blue, alpha) of the output pixel at (`ox`, `oy`).
pub open spec fn poster_channel(
    luma: Seq<u8>,
    luma_stride: int,
    chroma: Seq<u8>,
    chroma_stride: int,
    width: int,
    height: int,
    out_width: int,
    out_height: int,
    ox: int,
    oy: int,
    c: int,
) -> u8 {
    let (y, u, v) = poster_samples(
        luma,
        luma_stride,
        chroma,
        chroma_stride,
        width,
        height,
        out_width,
        out_height,
        ox,
        oy,
    );
    if c == 0 {
        red_of(y, v)
    } else if c == 1 {
        green_of(y, u, v)
    } else if c == 2 {
        blue_of(y, u)
    } else {
        255
    }
}

/// The unit in the last place of an `f32` of magnitude `a` 2^-26ths.
fn unit_of(a: u64) -> (m: u64)
    requires
        a < 0x100_0000_0000,
    ensures
        m == f32_unit(a as nat),
        1 <= m,
        m > 1 ==> m <= a,
{
    let mut t = a;
    let mut m: u64 = 1;
    while t >= 0x100_0000
        invariant
            a < 0x100_0000_0000,
            1 <= m,
            t * m <= a,
            m > 1 ==> t >= 0x80_0000,
            f32_unit(a as nat) == m * f32_unit(t as nat),
        decreases t,
    {
        let ghost old_t = t;
        let ghost old_m = m;
        assert(old_m < 0x10000) by (nonlinear_arith)
            requires
                old_t * old_m <= a,
                old_t >= 0x100_0000,
                a < 0x100_0000_0000,
        ;
        assert(f32_unit(old_t as nat) == 2 * f32_unit((old_t / 2) as nat));
        t = t / 2;
        m = m * 2;
        assert(f32_unit(a as nat) == m * f32_unit(t as nat)) by (nonlinear_arith)
            requires
                f32_unit(a as nat) == old_m * f32_unit(old_t as nat),
                f32_unit(old_t as nat) == 2 * f32_unit(t as nat),
                m == 2 * old_m,
        ;
        assert(t * m <= a) by (nonlinear_arith)
            requires
                t == old_t / 2,
                m == 2 * old_m,
                old_t * old_m <= a,
                old_m >= 1,
        ;
    }
    assert(f32_unit(t as nat) == 1);
    assert(f32_unit(a as nat) == m) by (nonlinear_arith)
        requires
            f32_unit(a as nat) == m * f32_unit(t as nat),
            f32_unit(t as nat) == 1,
    ;
    assert(m > 1 ==> m <= a) by (nonlinear_arith)
        requires
            t * m <= a,
            m > 1 ==> t >= 0x80_0000,
            m >= 1,
    ;
    m
}

/// `a` rounded as `f32` arithmetic rounds it (see `round_magnitude`).
fn round_magnitude_exec(a: u64) -> (r: u64)
    requires
        a < 0x100_0000_0000,
    ensures
        r == round_magnitude(a as nat),
        r <= 2 * a,
{
    let m = unit_of(a);
    let q = a / m;
    let rem = a % m;
    assert(q * m + rem == a && rem < m) by (nonlinear_arith)
        requires
            q == a / m,
            rem == a % m,
            m >= 1,
    ;
    assert(q * m <= a) by (nonlinear_arith)
        requires
            q * m + rem == a,
            rem >= 0,
    ;
    if 2 * rem > m || (2 * rem == m && q % 2 == 1) {
        assert((q + 1) * m <= 2 * a) by (nonlinear_arith)
            requires
                q * m + rem == a,
                rem < m,
                m > 1 ==> m <= a,
                m == 1 ==> rem == 0,
                2 * rem >= m,
        ;
        (q + 1) * m
    } else {
        q * m
    }
}

/// `x` 2^-26ths rounded as `f32` arithmetic rounds it (see `round_f32`).
fn round_f32_exec(x: i64) -> (r: i64)
    requires
        -0x100_0000_0000 < x < 0x100_0000_0000,
    ensures
        r == round_f32(x as int),
        -2 * (x as int) <= r <= 2 * (x as int) || 2 * (x as int) <= r <= -2 * (x as int),
{
    if x >= 0 {
        round_magnitude_exec(x as u64) as i64
    } else {
        -(round_magnitude_exec((-x) as u64) as i64)
    }
}

/// Converts one video-range sample to red, green and blue, as `f32`
/// arithmetic does (see `red_of`).
fn convert_sample(y: u8, u: u8, v: u8) -> (r: (u8, u8, u8))
    ensures
        r == (red_of(y, v), green_of(y, u, v), blue_of(y, u)),
{
    let luminance = round_f32_exec(LUMA_SCALE * (y as i64 - 16));
    let chroma_u = u as i64 - 128;
    let chroma_v = v as i64 - 128;
    let red = round_f32_exec(luminance + round_f32_exec(R_V * chroma_v));
    let green_part = round_f32_exec(luminance + round_f32_exec(G_U * chroma_u));
    let green = round_f32_exec(green_part + round_f32_exec(G_V * chroma_v));
    let blue = round_f32_exec(luminance + round_f32_exec(B_U * chroma_u));
    (clamp_channel(red), clamp_channel(green), clamp_channel(blue))
}

/// An intensity in 2^-26ths as a byte.
fn clamp_channel(value: i64) -> (r: u8)
    ensures
        r == to_channel(value as int),
{
    if value < 0 {
        0
    } else if value / ONE > 255 {
        255
    } else {
        (value / ONE) as u8
    }
}

/// The byte at `index` of `bytes`, or `default` past its end. The index is
/// wide so that no product of a row and a stride can wrap.
fn byte_or(bytes: &[u8], index: u128, default: u8) -> (r: u8)
    ensures
        r == plane_byte(bytes@, index as int, default),
{
    if index < bytes.len() as u128 {
        bytes[index as usize]
    } else {
        default
    }
}

/// `out * size / out_size` held inside the frame, without overflow.
fn source_coord(out: u32, size: u32, out_size: u32) -> (r: u32)
    requires
        out < out_size,
        0 < size,
    ensures
        r == source_coordinate(out as int, size as int, out_size as int),
        r < size,
{
    let o = out as u64;
    let s = size as u64;
    let n = out_size as u64;
    assert(o * s <= 0xffff_ffff * 0xffff_ffff) by (nonlinear_arith)
        requires
            o <= 0xffff_ffff,
            s <= 0xffff_ffff,
    ;
    let c = o * s / n;
    assert(c < s) by (nonlinear_arith)
        requires
            c == (o * s) / (n as int),
            o < n,
            0 < s,
    ;
    if c < s - 1 {
        c as u32
    } else {
        (s - 1) as u32
    }
}

/// Where pixel (`ox`, `oy`) of a `out_width`-wide RGBA image starts.
proof fn lemma_pixel_before_row(ox: int, oy: int, row: int, out_width: int)
    requires
        0 <= ox < out_width,
        0 <= oy < row,
    ensures
        oy * out_width + ox < row * out_width,
        (oy * out_width + ox) * 4 + 3 < row * out_width * 4,
{
    assert(oy * out_width + ox < row * out_width) by (nonlinear_arith)
        requires
            0 <= ox < out_width,
            0 <= oy < row,
    ;
    assert((oy * out_width + ox) * 4 + 3 < row * out_width * 4) by (nonlinear_arith)
        requires
            oy * out_width + ox < row * out_width,
    ;
}

/// Converts a bi-planar NV12 frame straight into a downscaled RGBA thumbnail,
/// sampling the nearest source pixel for each output one. Planes shorter than
/// the frame claims are read as black with neutral chroma where they run out;
/// an empty frame or an empty output gives an all-zero image.
pub fn nv12_poster_rgba(
    luma: Plane<'_>,
    chroma: Plane<'_>,
    width: u32,
    height: u32,
    out_width: u32,
    out_height: u32,
) -> (r: Vec<u8>)
    requires
        out_width * out_height * 4 <= usize::MAX,
    ensures
        r@.len() == out_width * out_height * 4,
        out_width == 0 || out_height == 0 || width == 0 || height == 0 ==> forall|i: int|
            0 <= i < r@.len() ==> r@[i] == 0,
        !(out_width == 0 || out_height == 0 || width == 0 || height == 0) ==> forall|
            ox: int,
            oy: int,
            c: int,
        |
            0 <= ox < out_width && 0 <= oy < out_height && 0 <= c < 4 ==> #[trigger] r@[(oy
                * out_width + ox) * 4 + c] == poster_channel(
                luma.bytes@,
                luma.stride as int,
                chroma.bytes@,
                chroma.stride as int,
                width as int,
                height as int,
                out_width as int,
                out_height as int,
                ox,
                oy,
                c,
            ),
{
    let total = (out_width as usize) * (out_height as usize) * 4;
    if out_width == 0 || out_height == 0 || width == 0 || height == 0 {
        let mut rgba: Vec<u8> = Vec::new();
        let mut i: usize = 0;
        while i < total
            invariant
                i <= total,
                rgba@.len() == i,
                forall|j: int| 0 <= j < i ==> rgba@[j] == 0,
            decreases total - i,
        {
            rgba.push(0);
            i = i + 1;
        }
        return rgba;
    }
    let ghost ow = out_width as int;
    let ghost lb = luma.bytes@;
    let ghost cb = chroma.bytes@;
    let mut rgba: Vec<u8> = Vec::new();
    let mut out_y: u32 = 0;
    while out_y < out_height
        invariant
            0 < out_width,
            0 < out_height,
            0 < width,
            0 < height,
            ow == out_width,
            lb == luma.bytes@,
            cb == chroma.bytes@,
            out_width * out_height * 4 <= usize::MAX,
            out_y <= out_height,
            rgba@.len() == out_y * ow * 4,
            forall|ox: int, oy: int, c: int|
                0 <= ox < ow && 0 <= oy < out_y && 0 <= c < 4 ==> #[trigger] rgba@[(oy * ow + ox)
                    * 4 + c] == poster_channel(
                    lb,
                    luma.stride as int,
                    cb,
                    chroma.stride as int,
                    width as int,
                    height as int,
                    ow,
                    out_height as int,
                    ox,
                    oy,
                    c,
                ),
        decreases out_height - out_y,
    {
        let source_y = source_coord(out_y, height, out_height);
        let sy = source_y as u128;
        let sy_half = (source_y / 2) as u128;
        let luma_stride = luma.stride as u128;
        let chroma_stride = chroma.stride as u128;
        assert(sy * luma_stride <= 0xffff_ffff * 0xffff_ffff_ffff_ffff) by (nonlinear_arith)
            requires
                sy <= 0xffff_ffff,
                luma_stride <= 0xffff_ffff_ffff_ffff,
        ;
        assert(sy_half * chroma_stride <= 0xffff_ffff * 0xffff_ffff_ffff_ffff) by (nonlinear_arith)
            requires
                sy_half <= 0xffff_ffff,
                chroma_stride <= 0xffff_ffff_ffff_ffff,
        ;
        let luma_row = sy * luma_stride;
        let chroma_row = sy_half * chroma_stride;
        let mut out_x: u32 = 0;
        while out_x < out_width
            invariant
                0 < out_width,
                0 < out_height,
                0 < width,
                0 < height,
                ow == out_width,
                lb == luma.bytes@,
                cb == chroma.bytes@,
                out_width * out_height * 4 <= usize::MAX,
                out_y < out_height,
                out_x <= out_width,
                source_y == source_coordinate(out_y as int, height as int, out_height as int),
                luma_row == source_y * luma.stride,
                chroma_row == (source_y / 2) * chroma.stride,
                luma_row <= 0xffff_ffff * 0xffff_ffff_ffff_ffff,
                chroma_row <= 0xffff_ffff * 0xffff_ffff_ffff_ffff,
                rgba@.len() == (out_y * ow + out_x) * 4,
                forall|ox: int, oy: int, c: int|
                    0 <= ox < ow && 0 <= oy < out_y && 0 <= c < 4 ==> #[trigger] rgba@[(oy * ow
                        + ox) * 4 + c] == poster_channel(
                        lb,
                        luma.stride as int,
                        cb,
                        chroma.stride as int,
                        width as int,
                        height as int,
                        ow,
                        out_height as int,
                        ox,
                        oy,
                        c,
                    ),
                forall|ox: int, c: int|
                    0 <= ox < out_x && 0 <= c < 4 ==> #[trigger] rgba@[(out_y * ow + ox) * 4 + c]
                        == poster_channel(
                        lb,
                        luma.stride as int,
                        cb,
                        chroma.stride as int,
                        width as int,
                        height as int,
                        ow,
                        out_height as int,
                        ox,
                        out_y as int,
                        c,
                    ),
            decreases out_width - out_x,
        {
            let source_x = source_coord(out_x, width, out_width);
            let y = byte_or(luma.bytes, luma_row + source_x as u128, 16);
            let chroma_at = chroma_row + ((source_x / 2) as u128) * 2;
            let u = byte_or(chroma.bytes, chroma_at, 128);
            let v = byte_or(chroma.bytes, chroma_at + 1, 128);
            let (red, green, blue) = convert_sample(y, u, v);
            assert((out_y * ow + out_x) * 4 + 4 <= out_width * out_height * 4) by (nonlinear_arith)
                requires
                    out_x < ow,
                    out_y < out_height,
                    ow == out_width,
            ;
            let ghost before = rgba@;
            rgba.push(red);
            rgba.push(green);
            rgba.push(blue);
            rgba.push(255);
            proof {
                let base = (out_y * ow + out_x) * 4;
                assert(rgba@.len() == base + 4);
                assert forall|ox: int, oy: int, c: int|
                    0 <= ox < ow && 0 <= oy < out_y && 0 <= c < 4 implies #[trigger] rgba@[(oy
                        * ow + ox) * 4 + c] == poster_channel(
                        lb,
                        luma.stride as int,
                        cb,
                        chroma.stride as int,
                        width as int,
                        height as int,
                        ow,
                        out_height as int,
                        ox,
                        oy,
                        c,
                    ) by {
                    lemma_pixel_before_row(ox, oy, out_y as int, ow);
                    assert(out_y * ow * 4 <= base) by (nonlinear_arith)
                        requires
                            base == (out_y * ow + out_x) * 4,
                            0 <= out_x,
                    ;
                    assert(rgba@[(oy * ow + ox) * 4 + c] == before[(oy * ow + ox) * 4 + c]);
                }
                assert forall|ox: int, c: int|
                    0 <= ox < out_x + 1 && 0 <= c < 4 implies #[trigger] rgba@[(out_y * ow + ox)
                        * 4 + c] == poster_channel(
                        lb,
                        luma.stride as int,
                        cb,
                        chroma.stride as int,
                        width as int,
                        height as int,
                        ow,
                        out_height as int,
                        ox,
                        out_y as int,
                        c,
                    ) by {
                    if ox < out_x {
                        assert((out_y * ow + ox) * 4 + c < base) by (nonlinear_arith)
                            requires
                                base == (out_y * ow + out_x) * 4,
                                ox < out_x,
                                c < 4,
                        ;
                        assert(rgba@[(out_y * ow + ox) * 4 + c] == before[(out_y * ow + ox) * 4
                            + c]);
                    } else {
                        assert((out_y * ow + ox) * 4 + c == base + c);
                    }
                }
            }
            out_x = out_x + 1;
        }
        proof {
            assert((out_y * ow + ow) * 4 == (out_y + 1) * ow * 4) by (nonlinear_arith);
            assert forall|ox: int, oy: int, c: int|
                0 <= ox < ow && 0 <= oy < out_y + 1 && 0 <= c < 4 implies #[trigger] rgba@[(oy * ow
                    + ox) * 4 + c] == poster_channel(
                    lb,
                    luma.stride as int,
                    cb,
                    chroma.stride as int,
                    width as int,
                    height as int,
                    ow,
                    out_height as int,
                    ox,
                    oy,
                    c,
                ) by {
                if oy == out_y {
                } else {
                }
            }
        }
        out_y = out_y + 1;
    }
    assert(out_height * ow * 4 == out_width * out_height * 4) by (nonlinear_arith)
        requires
            ow == out_width,
    ;
    rgba
}

} // verus!
