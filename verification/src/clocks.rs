//! Clocks and buffers measured on the monotonic clock.
//!
//! Every instant here is a reading of one monotonic clock in nanoseconds, so a
//! later instant is a larger number. The shell reads the clock; these types
//! only compare and subtract readings.
use vstd::prelude::*;

verus! {

/// Nanoseconds in a second.
pub const NANOS_PER_SEC: u64 = 1_000_000_000;

/// The layout of a microphone's PCM stream.
#[derive(Clone, Copy, Debug, PartialEq, Eq, Structural)]
pub struct Format {
    pub channels: u16,
    pub sample_rate: u32,
}

/// One device buffer of interleaved samples and the instant its first frame
/// was captured.
pub struct Buffer<S> {
    pub captured_at_ns: u64,
    pub samples: Vec<S>,
}

/// Whole frames of `rate` that start before `before_ns` has passed: the
/// duration in frames, rounded up, and no more than the buffer holds.
pub open spec fn trim_frames_spec(before_ns: int, rate: int, frames: int) -> int {
    let needed = (before_ns * rate + NANOS_PER_SEC - 1) / (NANOS_PER_SEC as int);
    if needed < frames {
        needed
    } else {
        frames
    }
}

/// How long `trim` frames at `rate` last, in nanoseconds, rounded down.
pub open spec fn trimmed_ns_spec(trim: int, rate: int) -> int {
    let ns = trim * NANOS_PER_SEC / rate;
    if ns > u64::MAX {
        u64::MAX as int
    } else {
        ns
    }
}

/// Whether trimming a buffer to `origin_ns` can be carried out: the trimmed
/// span has a duration only at a nonzero rate, and the new first-frame
/// instant must still be a clock reading.
pub open spec fn trim_is_defined<S>(buffer: Buffer<S>, origin_ns: u64, format: Format) -> bool {
    let channels = format.channels as int;
    let frames = if channels == 0 {
        0
    } else {
        buffer.samples@.len() as int / channels
    };
    let before = origin_ns - buffer.captured_at_ns;
    channels == 0 || frames == 0 || before <= 0 || trim_frames_spec(
        before,
        format.sample_rate as int,
        frames,
    ) >= frames || (format.sample_rate > 0 && buffer.captured_at_ns + trimmed_ns_spec(
        trim_frames_spec(before, format.sample_rate as int, frames),
        format.sample_rate as int,
    ) <= u64::MAX)
}

/// Whole frames rounded up: `trim` frames at `rate` last at least `before`
/// nanoseconds, and one frame fewer lasts less.
proof fn lemma_trim_reaches_origin(before: int, rate: int, trim: int)
    requires
        before > 0,
        rate > 0,
        trim == (before * rate + NANOS_PER_SEC - 1) / (NANOS_PER_SEC as int),
    ensures
        trim * NANOS_PER_SEC / rate >= before,
        (trim - 1) * NANOS_PER_SEC / rate < before,
        trim >= 1,
{
    let n = NANOS_PER_SEC as int;
    assert(trim * n >= before * rate && (trim - 1) * n < before * rate) by (nonlinear_arith)
        requires
            trim == (before * rate + n - 1) / n,
            n == 1_000_000_000,
            before > 0,
            rate > 0,
    ;
    assert(trim * n / rate >= before) by (nonlinear_arith)
        requires
            trim * n >= before * rate,
            rate > 0,
    ;
    assert((trim - 1) * n / rate < before) by (nonlinear_arith)
        requires
            (trim - 1) * n < before * rate,
            rate > 0,
    ;
    assert(trim >= 1) by (nonlinear_arith)
        requires
            trim * n >= before * rate,
            before > 0,
            rate > 0,
            n > 0,
    ;
}

/// Keeps only the part of a microphone buffer at or after the movie origin, cut
/// at a whole PCM frame: the fewest whole frames are cut that leave nothing
/// before the origin. A buffer that starts at or after the origin is kept
/// whole; one that ends before it, or holds no whole frame, is dropped.
pub fn microphone_buffer_from_origin<S>(
    microphone: Buffer<S>,
    origin_ns: u64,
    format: Format,
) -> (r: Option<Buffer<S>>)
    requires
        trim_is_defined(microphone, origin_ns, format),
    ensures
        ({
            let channels = format.channels as int;
            let len = microphone.samples@.len() as int;
            let before = origin_ns - microphone.captured_at_ns;
            if channels == 0 || len / channels == 0 {
                r is None
            } else if before <= 0 {
                r matches Some(b) && b.captured_at_ns == microphone.captured_at_ns && b.samples@
                    == microphone.samples@
            } else {
                let frames = len / channels;
                let trim = trim_frames_spec(before, format.sample_rate as int, frames);
                if trim >= frames {
                    r is None
                } else {
                    r matches Some(b) && b.samples@ == microphone.samples@.subrange(
                        trim * channels,
                        len,
                    ) && b.captured_at_ns == microphone.captured_at_ns + trimmed_ns_spec(
                        trim,
                        format.sample_rate as int,
                    ) && b.captured_at_ns >= origin_ns && microphone.captured_at_ns
                        + trimmed_ns_spec(trim - 1, format.sample_rate as int) < origin_ns
                }
            }
        }),
{
    let channels = format.channels as usize;
    if channels == 0 {
        return None;
    }
    let frames = microphone.samples.len() / channels;
    if frames == 0 {
        return None;
    }
    if origin_ns <= microphone.captured_at_ns {
        return Some(microphone);
    }
    let before = (origin_ns - microphone.captured_at_ns) as u128;
    let rate = format.sample_rate as u128;
    assert(before * rate <= 0xffff_ffff_ffff_ffff * 0xffff_ffff) by (nonlinear_arith)
        requires
            before <= 0xffff_ffff_ffff_ffff,
            rate <= 0xffff_ffff,
    ;
    let needed = (before * rate + (NANOS_PER_SEC as u128 - 1)) / (NANOS_PER_SEC as u128);
    let trim_frames = if needed < frames as u128 {
        needed as usize
    } else {
        frames
    };
    if trim_frames >= frames {
        return None;
    }
    proof {
        lemma_trim_reaches_origin(before as int, rate as int, needed as int);
    }
    let mut microphone = microphone;
    assert(trim_frames * channels <= microphone.samples@.len()) by (nonlinear_arith)
        requires
            trim_frames < frames,
            frames == microphone.samples@.len() as int / (channels as int),
            channels > 0,
    ;
    let kept = microphone.samples.split_off(trim_frames * channels);
    let trimmed = trim_frames as u128;
    assert(trimmed * (NANOS_PER_SEC as u128) <= 0xffff_ffff_ffff_ffff * 1_000_000_000) by (
    nonlinear_arith)
        requires
            trimmed <= 0xffff_ffff_ffff_ffff,
    ;
    let trimmed_ns = trimmed * (NANOS_PER_SEC as u128) / rate;
    let trimmed_ns = if trimmed_ns > u64::MAX as u128 {
        u64::MAX
    } else {
        trimmed_ns as u64
    };
    Some(Buffer { captured_at_ns: microphone.captured_at_ns + trimmed_ns, samples: kept })
}

/// Whether a frame seen at `frame_at_ns` came after the user pressed stop, once
/// the stop instant is known. Such frames would stretch the recording past what
/// the user asked for.
pub fn after_stop(stopped_at_ns: Option<u64>, frame_at_ns: u64) -> (r: bool)
    ensures
        r == (stopped_at_ns matches Some(stop) && frame_at_ns > stop),
{
    match stopped_at_ns {
        Some(stop) => frame_at_ns > stop,
        None => false,
    }
}

/// The running length of an audio-only recording, pauses taken out.
pub struct AudioOnlyClock {
    started_ns: u64,
    paused_since_ns: Option<u64>,
    paused_total_ns: u64,
}

/// What an audio-only clock holds, as seen by contracts.
#[derive(Clone, Copy, Debug, PartialEq, Eq, Structural)]
pub struct AudioOnlyClockView {
    pub started_ns: u64,
    pub paused_since_ns: Option<u64>,
    pub paused_total_ns: u64,
}

impl View for AudioOnlyClock {
    type V = AudioOnlyClockView;

    closed spec fn view(&self) -> AudioOnlyClockView {
        AudioOnlyClockView {
            started_ns: self.started_ns,
            paused_since_ns: self.paused_since_ns,
            paused_total_ns: self.paused_total_ns,
        }
    }
}

/// `later - earlier`, or zero when `later` is not after `earlier`.
pub open spec fn since(later: u64, earlier: u64) -> int {
    if later >= earlier {
        later - earlier
    } else {
        0
    }
}

/// `a + b` stuck at `u64::MAX`.
pub open spec fn sat_u64(x: int) -> int {
    if x > u64::MAX {
        u64::MAX as int
    } else {
        x
    }
}

/// The paused time of an audio-only clock at `at_ns`, counting an open pause.
pub open spec fn audio_paused_at(c: AudioOnlyClockView, at_ns: u64) -> int {
    sat_u64(
        c.paused_total_ns + match c.paused_since_ns {
            Some(pause) => since(at_ns, pause),
            None => 0,
        },
    )
}

/// The recorded length at `at_ns` in whole milliseconds: time since the start
/// less the paused time, never negative.
pub open spec fn audio_duration_ms_spec(c: AudioOnlyClockView, at_ns: u64) -> int {
    let elapsed = since(at_ns, c.started_ns);
    let paused = audio_paused_at(c, at_ns);
    (if elapsed >= paused {
        elapsed - paused
    } else {
        0
    }) / 1_000_000
}

impl AudioOnlyClock {
    /// A clock that started at `started_ns` and has never been paused.
    pub fn new(started_ns: u64) -> (r: AudioOnlyClock)
        ensures
            r@ == (AudioOnlyClockView {
                started_ns,
                paused_since_ns: None,
                paused_total_ns: 0,
            }),
    {
        AudioOnlyClock { started_ns, paused_since_ns: None, paused_total_ns: 0 }
    }

    /// Opens a pause at `at_ns`; a pause that is already open keeps its start.
    pub fn pause(&mut self, at_ns: u64)
        ensures
            final(self)@ == (AudioOnlyClockView {
                paused_since_ns: match old(self)@.paused_since_ns {
                    Some(p) => Some(p),
                    None => Some(at_ns),
                },
                ..old(self)@
            }),
    {
        if self.paused_since_ns.is_none() {
            self.paused_since_ns = Some(at_ns);
        }
    }

    /// Closes the open pause at `at_ns`, adding its span to the paused total.
    pub fn resume(&mut self, at_ns: u64)
        ensures
            final(self)@ == (match old(self)@.paused_since_ns {
                Some(pause) => AudioOnlyClockView {
                    paused_since_ns: None,
                    paused_total_ns: sat_u64(old(self)@.paused_total_ns + since(at_ns, pause)) as u64,
                    ..old(self)@
                },
                None => old(self)@,
            }),
    {
        match self.paused_since_ns {
            Some(pause) => {
                self.paused_total_ns = self.paused_total_ns.saturating_add(
                    at_ns.saturating_sub(pause),
                );
                self.paused_since_ns = None;
            },
            None => {},
        }
    }

    /// The recorded length at `at_ns`, in whole milliseconds.
    pub fn duration_ms(&self, at_ns: u64) -> (r: u64)
        ensures
            r == audio_duration_ms_spec(self@, at_ns),
    {
        let elapsed = at_ns.saturating_sub(self.started_ns);
        let open = match self.paused_since_ns {
            Some(pause) => at_ns.saturating_sub(pause),
            None => 0,
        };
        let paused = self.paused_total_ns.saturating_add(open);
        elapsed.saturating_sub(paused) / 1_000_000
    }
}

/// Pausing and resuming an audio-only recording takes the pause out of its
/// length: a pause from `from` to `to` inside the recording shortens the length
/// at any later instant by exactly its span (in whole milliseconds of what is
/// left).
pub proof fn law_audio_pause_is_taken_out(c: AudioOnlyClockView, from: u64, to: u64, at: u64)
    requires
        c.paused_since_ns is None,
        c.started_ns <= from <= to <= at,
        c.paused_total_ns + (to - from) <= from - c.started_ns + (at - to),
    ensures
        audio_duration_ms_spec(
            AudioOnlyClockView {
                paused_total_ns: (c.paused_total_ns + (to - from)) as u64,
                ..c
            },
            at,
        ) == (at - c.started_ns - c.paused_total_ns - (to - from)) / 1_000_000,
{
}

/// A pause or resume called on an audio-only clock, at its instant.
pub enum AudioClockCall {
    Pause(u64),
    Resume(u64),
}

/// An audio-only clock after one call, as that call's contract states it.
pub open spec fn after_audio_call(c: AudioOnlyClockView, call: AudioClockCall) -> AudioOnlyClockView {
    match call {
        AudioClockCall::Pause(at_ns) => AudioOnlyClockView {
            paused_since_ns: match c.paused_since_ns {
                Some(p) => Some(p),
                None => Some(at_ns),
            },
            ..c
        },
        AudioClockCall::Resume(at_ns) => match c.paused_since_ns {
            Some(pause) => AudioOnlyClockView {
                paused_since_ns: None,
                paused_total_ns: sat_u64(c.paused_total_ns + since(at_ns, pause)) as u64,
                ..c
            },
            None => c,
        },
    }
}

/// An audio-only clock after a sequence of calls, in order.
pub open spec fn after_audio_calls(c: AudioOnlyClockView, calls: Seq<AudioClockCall>) -> AudioOnlyClockView
    decreases calls.len(),
{
    if calls.len() == 0 {
        c
    } else {
        after_audio_call(after_audio_calls(c, calls.drop_last()), calls.last())
    }
}

/// Where the pause left open by `calls` began: a pause while paused keeps the
/// earlier start, and a resume closes it.
pub open spec fn open_pause(calls: Seq<AudioClockCall>) -> Option<u64>
    decreases calls.len(),
{
    if calls.len() == 0 {
        None
    } else {
        match calls.last() {
            AudioClockCall::Pause(at_ns) => match open_pause(calls.drop_last()) {
                Some(p) => Some(p),
                None => Some(at_ns),
            },
            AudioClockCall::Resume(_) => None,
        }
    }
}

/// The total span of the pauses that `calls` closed, each from its start to
/// the resume that closed it.
pub open spec fn closed_pauses(calls: Seq<AudioClockCall>) -> int
    decreases calls.len(),
{
    if calls.len() == 0 {
        0
    } else {
        let earlier = closed_pauses(calls.drop_last());
        match (calls.last(), open_pause(calls.drop_last())) {
            (AudioClockCall::Resume(at_ns), Some(p)) => earlier + since(at_ns, p),
            _ => earlier,
        }
    }
}

/// What a fresh clock holds after `calls`: their open pause and the span of
/// the pauses they closed, while that total fits.
proof fn lemma_audio_calls(started_ns: u64, calls: Seq<AudioClockCall>)
    requires
        closed_pauses(calls) <= u64::MAX,
    ensures
        after_audio_calls(
            AudioOnlyClockView { started_ns, paused_since_ns: None, paused_total_ns: 0 },
            calls,
        ) == (AudioOnlyClockView {
            started_ns,
            paused_since_ns: open_pause(calls),
            paused_total_ns: closed_pauses(calls) as u64,
        }),
        closed_pauses(calls) >= 0,
    decreases calls.len(),
{
    if calls.len() > 0 {
        let earlier = calls.drop_last();
        assert(closed_pauses(earlier) <= closed_pauses(calls)) by {
            lemma_closed_pauses_grow(calls);
        }
        lemma_audio_calls(started_ns, earlier);
    }
}

/// Closing a pause never shrinks the closed total.
proof fn lemma_closed_pauses_grow(calls: Seq<AudioClockCall>)
    requires
        calls.len() > 0,
    ensures
        closed_pauses(calls.drop_last()) <= closed_pauses(calls),
{
}

/// The length of an audio-only recording over any sequence of pauses and
/// resumes: for a clock made by `AudioOnlyClock::new(started_ns)` and then
/// given the `pause` and `resume` calls `calls` (each changing the clock as
/// `after_audio_call` says, which is its own contract), `duration_ms(at_ns)`
/// is the time since it started less every pause it closed and the one still
/// open, in whole milliseconds and never negative. A pause while paused keeps
/// the earlier start; a resume while running does nothing. For example, a pause
/// 3 s in and a resume 8 s in leave 4000 ms at 9 s.
pub proof fn law_audio_length_follows_the_pauses(started_ns: u64, calls: Seq<AudioClockCall>, at_ns: u64)
    requires
        closed_pauses(calls) <= u64::MAX,
    ensures
        ({
            let paused = sat_u64(
                closed_pauses(calls) + match open_pause(calls) {
                    Some(p) => since(at_ns, p),
                    None => 0,
                },
            );
            audio_duration_ms_spec(
                after_audio_calls(
                    AudioOnlyClockView { started_ns, paused_since_ns: None, paused_total_ns: 0 },
                    calls,
                ),
                at_ns,
            ) == (if since(at_ns, started_ns) >= paused {
                since(at_ns, started_ns) - paused
            } else {
                0
            }) / 1_000_000
        }),
{
    lemma_audio_calls(started_ns, calls);
}

/// The clock cursor samples are stamped with: microseconds of recording since
/// the movie's origin, pauses taken out. The origin is shared with the video
/// writer and is unknown until the first frame has been written.
pub struct CursorClock {
    origin_ns: Option<u64>,
    paused_since_ns: Option<u64>,
    paused_total_ns: u64,
}

/// What a cursor clock holds, as seen by contracts.
#[derive(Clone, Copy, Debug, PartialEq, Eq, Structural)]
pub struct CursorClockView {
    pub origin_ns: Option<u64>,
    pub paused_since_ns: Option<u64>,
    pub paused_total_ns: u64,
}

impl View for CursorClock {
    type V = CursorClockView;

    closed spec fn view(&self) -> CursorClockView {
        CursorClockView {
            origin_ns: self.origin_ns,
            paused_since_ns: self.paused_since_ns,
            paused_total_ns: self.paused_total_ns,
        }
    }
}

/// The stamp a cursor sample taken at `at_ns` gets: none before the movie has
/// an origin, while paused, or for a reading before the origin; otherwise the
/// recorded microseconds since the origin.
pub open spec fn cursor_timestamp_spec(c: CursorClockView, at_ns: u64) -> Option<u64> {
    match c.origin_ns {
        Some(origin) => if c.paused_since_ns is Some || at_ns < origin {
            None
        } else {
            let elapsed = at_ns - origin;
            Some(
                ((if elapsed >= c.paused_total_ns {
                    elapsed - c.paused_total_ns
                } else {
                    0
                }) / 1000) as u64,
            )
        },
        None => None,
    }
}

impl CursorClock {
    /// A clock for a movie whose origin is `origin_ns`, once known.
    pub fn new(origin_ns: Option<u64>) -> (r: CursorClock)
        ensures
            r@ == (CursorClockView { origin_ns, paused_since_ns: None, paused_total_ns: 0 }),
    {
        CursorClock { origin_ns, paused_since_ns: None, paused_total_ns: 0 }
    }

    /// Learns the movie's origin. An origin already known is kept.
    pub fn set_origin(&mut self, origin_ns: u64)
        ensures
            final(self)@ == (CursorClockView {
                origin_ns: match old(self)@.origin_ns {
                    Some(o) => Some(o),
                    None => Some(origin_ns),
                },
                ..old(self)@
            }),
    {
        if self.origin_ns.is_none() {
            self.origin_ns = Some(origin_ns);
        }
    }

    /// Opens a pause at `at_ns`; a pause already open keeps its start.
    pub fn pause(&mut self, at_ns: u64)
        ensures
            final(self)@ == (CursorClockView {
                paused_since_ns: match old(self)@.paused_since_ns {
                    Some(p) => Some(p),
                    None => Some(at_ns),
                },
                ..old(self)@
            }),
    {
        if self.paused_since_ns.is_none() {
            self.paused_since_ns = Some(at_ns);
        }
    }

    /// Closes the open pause at `at_ns`, adding its span to the paused total.
    pub fn resume(&mut self, at_ns: u64)
        ensures
            final(self)@ == (match old(self)@.paused_since_ns {
                Some(pause) => CursorClockView {
                    paused_since_ns: None,
                    paused_total_ns: sat_u64(old(self)@.paused_total_ns + since(at_ns, pause)) as u64,
                    ..old(self)@
                },
                None => old(self)@,
            }),
    {
        match self.paused_since_ns {
            Some(pause) => {
                self.paused_total_ns = self.paused_total_ns.saturating_add(
                    at_ns.saturating_sub(pause),
                );
                self.paused_since_ns = None;
            },
            None => {},
        }
    }

    /// The stamp of a sample taken at `at_ns`, or none when it must not be
    /// recorded.
    pub fn timestamp_us(&self, at_ns: u64) -> (r: Option<u64>)
        ensures
            r == cursor_timestamp_spec(self@, at_ns),
    {
        match self.origin_ns {
            Some(origin) => {
                if self.paused_since_ns.is_some() || at_ns < origin {
                    None
                } else {
                    Some((at_ns - origin).saturating_sub(self.paused_total_ns) / 1000)
                }
            },
            None => None,
        }
    }
}

/// Nothing is stamped while a pause is open, and after the pause closes its
/// span is missing from every later stamp.
pub proof fn law_cursor_pauses_are_taken_out(c: CursorClockView, from: u64, to: u64, at: u64)
    requires
        c.origin_ns matches Some(o) && o <= from,
        c.paused_since_ns is None,
        from <= to <= at,
        c.paused_total_ns + (to - from) <= at - c.origin_ns.unwrap(),
    ensures
        cursor_timestamp_spec(CursorClockView { paused_since_ns: Some(from), ..c }, at) is None,
        cursor_timestamp_spec(
            CursorClockView { paused_total_ns: (c.paused_total_ns + (to - from)) as u64, ..c },
            at,
        ) == Some(((at - c.origin_ns.unwrap() - c.paused_total_ns - (to - from)) / 1000) as u64),
{
}

} // verus!
