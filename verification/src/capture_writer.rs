//! The decisions of a recording's writer thread, apart from the encoder it
//! feeds: which frames are written and at what timestamp, the audio that
//! waits for the movie to begin, and when a run of refusals means the
//! recording has failed. The shell hands each captured buffer to the writer
//! and carries out what it answers.
use std::collections::VecDeque;
use vstd::prelude::*;
use vstd::string::*;
use crate::timeline::{Timeline, TimelineView, frame_pts_spec, origin_after, stop_pts_spec};

verus! {

/// The most audio buffers that wait for the movie to begin, per track. Older
/// ones are dropped first: the newest are those that overlap the first frame.
pub const PREROLL_LIMIT: usize = 64;

/// How many refusals in a row mean the encoder has given up.
pub const REJECTION_STREAK_LIMIT: u64 = 60;

/// `s` with `item` added at the back, the oldest item dropped first when `s`
/// is already full.
pub open spec fn bounded_push<T>(s: Seq<T>, item: T) -> Seq<T> {
    if s.len() >= PREROLL_LIMIT {
        s.drop_first().push(item)
    } else {
        s.push(item)
    }
}

/// Buffers of one audio track waiting for the movie to begin, oldest first.
pub struct Preroll<T> {
    items: VecDeque<T>,
}

impl<T> Preroll<T> {
    /// The waiting buffers, oldest first.
    pub closed spec fn waiting(&self) -> Seq<T> {
        self.items@
    }

    /// Nothing waiting.
    pub fn new() -> (r: Preroll<T>)
        ensures
            r.waiting().len() == 0,
    {
        Preroll { items: VecDeque::new() }
    }

    /// Keeps `item` until the movie begins.
    pub fn push(&mut self, item: T)
        requires
            old(self).waiting().len() <= PREROLL_LIMIT,
        ensures
            final(self).waiting() == bounded_push(old(self).waiting(), item),
            final(self).waiting().len() <= PREROLL_LIMIT,
    {
        if self.items.len() >= PREROLL_LIMIT {
            let _oldest = self.items.pop_front();
            assert(self.items@ =~= old(self).waiting().drop_first());
        }
        self.items.push_back(item);
    }

    /// Hands over everything waiting, oldest first, leaving nothing.
    pub fn take_all(&mut self) -> (r: Vec<T>)
        ensures
            r@ == old(self).waiting(),
            final(self).waiting().len() == 0,
    {
        let ghost all = self.items@;
        let mut taken: Vec<T> = Vec::new();
        while self.items.len() > 0
            invariant
                all == taken@ + self.items@,
            decreases self.items@.len(),
        {
            let ghost before = self.items@;
            match self.items.pop_front() {
                Some(item) => {
                    taken.push(item);
                    assert(all =~= taken@ + self.items@) by {
                        assert(before =~= seq![item] + self.items@);
                    }
                },
                None => {},
            }
        }
        assert(all =~= taken@);
        taken
    }

    /// How many buffers are waiting.
    pub fn len(&self) -> (r: usize)
        ensures
            r == self.waiting().len(),
    {
        self.items.len()
    }
}

/// A preroll never holds more than `PREROLL_LIMIT` buffers, and what it holds
/// ends with the buffer added last, after the ones it kept.
pub proof fn law_a_preroll_keeps_the_newest<T>(s: Seq<T>, item: T)
    requires
        s.len() <= PREROLL_LIMIT,
    ensures
        bounded_push(s, item).len() <= PREROLL_LIMIT,
        bounded_push(s, item).last() == item,
        bounded_push(s, item).drop_last() == (if s.len() >= PREROLL_LIMIT {
            s.drop_first()
        } else {
            s
        }),
{
    if s.len() >= PREROLL_LIMIT {
        assert(s.drop_first().push(item).drop_last() =~= s.drop_first());
    } else {
        assert(s.push(item).drop_last() =~= s);
    }
}

/// What becomes of a captured frame.
#[derive(Clone, Copy, Debug, PartialEq, Eq, Structural)]
pub enum FrameStep {
    /// The recording is paused: the frame is only kept as the latest one seen,
    /// which the movie resumes from and its poster is drawn from.
    Hold,
    /// The frame is written at `pts_ns`. When it is the `first`, it starts
    /// the movie, and the audio waiting for it is written next.
    Write { pts_ns: i64, first: bool },
}

/// What becomes of an audio buffer.
#[derive(Clone, Copy, Debug, PartialEq, Eq, Structural)]
pub enum AudioStep {
    /// It waits for the first frame.
    Wait,
    /// It arrived during a pause and is dropped.
    Drop,
    /// It is written now.
    Write,
}

/// The writer's bookkeeping.
pub struct WriterCore {
    timeline: Timeline,
    origin_source_ns: Option<i64>,
    origin_wall_ns: Option<i64>,
    announced: bool,
    failure: Option<String>,
    rejection_streak: u64,
    last_appended_ns: Option<i64>,
    microphone_failure_reported: bool,
}

/// The writer's bookkeeping, as contracts see it.
pub struct WriterView {
    pub timeline: TimelineView,
    pub origin_source_ns: Option<i64>,
    pub origin_wall_ns: Option<i64>,
    pub announced: bool,
    pub failed: bool,
    pub rejection_streak: u64,
    pub last_appended_ns: Option<i64>,
    pub microphone_failure_reported: bool,
}

impl View for WriterCore {
    type V = WriterView;

    closed spec fn view(&self) -> WriterView {
        WriterView {
            timeline: self.timeline@,
            origin_source_ns: self.origin_source_ns,
            origin_wall_ns: self.origin_wall_ns,
            announced: self.announced,
            failed: self.failure is Some,
            rejection_streak: self.rejection_streak,
            last_appended_ns: self.last_appended_ns,
            microphone_failure_reported: self.microphone_failure_reported,
        }
    }
}

/// The frame step for a frame read at `source_ns` on the capture clock and
/// `wall_ns` on the writer's own, and the writer afterwards.
pub open spec fn frame_step_spec(w: WriterView, source_ns: i64, wall_ns: i64) -> (WriterView, FrameStep) {
    if w.timeline.paused_since_ns is Some {
        (w, FrameStep::Hold)
    } else {
        let first = w.timeline.origin is None;
        let started = if first {
            WriterView {
                origin_source_ns: Some(source_ns),
                origin_wall_ns: Some(wall_ns),
                ..w
            }
        } else {
            w
        };
        let pts = frame_pts_spec(w.timeline, source_ns, wall_ns);
        let timeline = TimelineView {
            origin: Some(origin_after(w.timeline, source_ns, wall_ns)),
            last_pts_ns: Some(pts as i64),
            ..w.timeline
        };
        (WriterView { timeline, ..started }, FrameStep::Write { pts_ns: pts as i64, first })
    }
}

/// The audio step for a buffer of a track, at the writer's state.
pub open spec fn audio_step_spec(w: WriterView) -> AudioStep {
    if w.timeline.origin is None {
        AudioStep::Wait
    } else if w.timeline.paused_since_ns is Some {
        AudioStep::Drop
    } else {
        AudioStep::Write
    }
}

/// Where an audio buffer of a track is written: where the timeline maps it,
/// or just after the track's previous buffer if that is later, so a track's
/// timestamps keep increasing.
pub open spec fn audio_pts_spec(mapped_ns: i64, last_ns: Option<i64>) -> int {
    match last_ns {
        Some(last) => {
            let after = crate::arith::clamp_i64(last + 1);
            if mapped_ns >= after {
                mapped_ns as int
            } else {
                after
            }
        },
        None => mapped_ns as int,
    }
}

/// The timestamp an audio buffer is written at (see `audio_pts_spec`).
pub fn audio_pts(mapped_ns: i64, last_ns: Option<i64>) -> (r: i64)
    ensures
        r == audio_pts_spec(mapped_ns, last_ns),
{
    match last_ns {
        Some(last) => {
            let after = crate::arith::sat_add(last, 1);
            if mapped_ns >= after {
                mapped_ns
            } else {
                after
            }
        },
        None => mapped_ns,
    }
}

/// A track's audio timestamps keep increasing, short of the end of the
/// timestamp range.
pub proof fn law_audio_timestamps_increase(mapped_ns: i64, last_ns: i64)
    requires
        last_ns < i64::MAX,
    ensures
        audio_pts_spec(mapped_ns, Some(last_ns)) > last_ns,
{
}

/// The message reported when the microphone stops.
pub open spec fn microphone_failure_message(error: Seq<char>) -> Seq<char> {
    "The microphone stopped recording: "@ + error
}

/// The message a stop is refused with when no frame was ever captured.
pub open spec fn no_frames_message() -> Seq<char> {
    "The recording captured no frames"@
}

/// The writer after a refusal, and whether the recording fails with it: the
/// streak of refusals grows by one, and the recording fails when the encoder
/// says it has failed or the streak reaches `REJECTION_STREAK_LIMIT`. Only a
/// recording that had not failed yet fails now.
pub open spec fn refused_spec(w: WriterView, encoder_failed: bool) -> (WriterView, bool) {
    let streak = if w.rejection_streak == u64::MAX {
        u64::MAX
    } else {
        (w.rejection_streak + 1) as u64
    };
    let hopeless = encoder_failed || streak >= REJECTION_STREAK_LIMIT;
    (WriterView { rejection_streak: streak, failed: w.failed || hopeless, ..w }, !w.failed && hopeless)
}

impl WriterCore {
    /// A writer that has seen nothing.
    pub fn new() -> (r: WriterCore)
        ensures
            r@.timeline.origin is None,
            r@.timeline.paused_since_ns is None,
            r@.timeline.last_pts_ns is None,
            r@.timeline.paused_total_ns == 0,
            r@.origin_source_ns is None,
            r@.origin_wall_ns is None,
            !r@.announced,
            !r@.failed,
            r@.rejection_streak == 0,
            r@.last_appended_ns is None,
            !r@.microphone_failure_reported,
    {
        WriterCore {
            timeline: Timeline::default(),
            origin_source_ns: None,
            origin_wall_ns: None,
            announced: false,
            failure: None,
            rejection_streak: 0,
            last_appended_ns: None,
            microphone_failure_reported: false,
        }
    }

    /// Decides what becomes of a captured frame (see `frame_step_spec`). The
    /// frame that starts the movie is written at zero.
    pub fn frame(&mut self, source_ns: i64, wall_ns: i64) -> (r: FrameStep)
        ensures
            (final(self)@, r) == frame_step_spec(old(self)@, source_ns, wall_ns),
            old(self)@.timeline.origin is None && old(self)@.timeline.paused_since_ns is None ==> r
                == (FrameStep::Write { pts_ns: 0, first: true }),
    {
        if self.timeline.is_paused() {
            return FrameStep::Hold;
        }
        let first = !self.timeline.has_started();
        if first {
            self.origin_source_ns = Some(source_ns);
            self.origin_wall_ns = Some(wall_ns);
        }
        let pts = self.timeline.frame_pts_ns(source_ns, wall_ns);
        FrameStep::Write { pts_ns: pts, first }
    }

    /// Decides what becomes of an audio buffer (see `audio_step_spec`).
    pub fn audio(&self) -> (r: AudioStep)
        ensures
            r == audio_step_spec(self@),
    {
        if !self.timeline.has_started() {
            AudioStep::Wait
        } else if self.timeline.is_paused() {
            AudioStep::Drop
        } else {
            AudioStep::Write
        }
    }

    /// Opens a pause at `wall_ns`.
    pub fn pause(&mut self, wall_ns: i64)
        ensures
            final(self)@ == (WriterView { timeline: crate::timeline::paused_spec(old(self)@.timeline, wall_ns), ..old(self)@ }),
    {
        self.timeline.pause(wall_ns);
    }

    /// Closes a pause at `wall_ns`.
    pub fn resume(&mut self, wall_ns: i64)
        ensures
            final(self)@ == (WriterView { timeline: crate::timeline::resumed_spec(old(self)@.timeline, wall_ns), ..old(self)@ }),
    {
        self.timeline.resume(wall_ns);
    }

    /// The movie timeline.
    pub fn timeline(&self) -> (r: &Timeline)
        ensures
            r@ == self@.timeline,
    {
        &self.timeline
    }

    /// Whether the writer may still hand anything to the encoder: once the
    /// recording has failed, every buffer is refused without asking.
    pub fn accepts(&self) -> (r: bool)
        ensures
            r == !self@.failed,
    {
        self.failure.is_none()
    }

    /// Notes a frame the encoder took at `pts_ns`. Returns whether this is the
    /// first to land, which is when the recording is announced as started.
    pub fn appended(&mut self, pts_ns: i64) -> (r: bool)
        ensures
            r == !old(self)@.announced,
            final(self)@ == (WriterView {
                announced: true,
                rejection_streak: 0,
                last_appended_ns: Some(pts_ns),
                ..old(self)@
            }),
    {
        let first = !self.announced;
        self.announced = true;
        self.rejection_streak = 0;
        self.last_appended_ns = Some(pts_ns);
        first
    }

    /// Notes a buffer the encoder refused, for `reason`. The recording fails
    /// when the encoder says it has failed or after `REJECTION_STREAK_LIMIT`
    /// refusals in a row (see `refused_spec`); the reason is returned, to be
    /// reported, only when the recording fails now, so a failure is reported
    /// once.
    pub fn refused(&mut self, reason: String, encoder_failed: bool) -> (r: Option<String>)
        ensures
            (final(self)@, r is Some) == refused_spec(old(self)@, encoder_failed),
            r matches Some(message) ==> message@ == reason@,
    {
        self.rejection_streak = self.rejection_streak.saturating_add(1);
        let hopeless = encoder_failed || self.rejection_streak >= REJECTION_STREAK_LIMIT;
        if hopeless && self.failure.is_none() {
            self.failure = Some(reason.clone());
            return Some(reason);
        }
        None
    }

    /// The message to report when the microphone stops with `error`: only the
    /// first time.
    pub fn microphone_failed(&mut self, error: &str) -> (r: Option<String>)
        ensures
            final(self)@ == (WriterView { microphone_failure_reported: true, ..old(self)@ }),
            old(self)@.microphone_failure_reported ==> r is None,
            !old(self)@.microphone_failure_reported ==> (r matches Some(message) && message@
                == microphone_failure_message(error@)),
    {
        if self.microphone_failure_reported {
            return None;
        }
        self.microphone_failure_reported = true;
        let mut message = String::from_str("The microphone stopped recording: ");
        message.append(error);
        Some(message)
    }

    /// Where the movie ends when the user stops at `wall_ns`, or the refusal
    /// of a recording that never captured a frame.
    pub fn stop_pts(&self, wall_ns: i64) -> (r: Result<i64, String>)
        ensures
            self@.timeline.origin is None ==> (r matches Err(m) && m@ == no_frames_message()),
            self@.timeline.origin is Some ==> r == Ok::<i64, String>(
                stop_pts_spec(self@.timeline, wall_ns) as i64,
            ),
    {
        if !self.timeline.has_started() {
            return Err(String::from_str("The recording captured no frames"));
        }
        Ok(self.timeline.stop_pts_ns(wall_ns))
    }
}

/// A failure is reported once: a writer that has failed stays failed and
/// reports nothing more, whatever is refused after.
pub proof fn law_a_failure_is_reported_once(w: WriterView, encoder_failed: bool)
    requires
        w.failed,
    ensures
        refused_spec(w, encoder_failed).0.failed,
        !refused_spec(w, encoder_failed).1,
{
}

/// A long enough run of refusals fails the recording even when the encoder
/// does not say it has failed.
pub proof fn law_a_long_refusal_streak_fails(w: WriterView)
    requires
        w.rejection_streak + 1 >= REJECTION_STREAK_LIMIT,
    ensures
        refused_spec(w, false).0.failed,
{
}

/// A track end, or zero for a track with nothing written.
pub open spec fn end_or_zero(end_ns: Option<i64>) -> int {
    match end_ns {
        Some(end) => end as int,
        None => 0,
    }
}

/// Where a recording's session ends: exactly where its media ends, at the
/// latest of its last frame and the ends of its audio tracks (zero when
/// nothing was written). Ending later would claim a duration no sample fills.
pub fn session_end_ns(
    last_frame_ns: Option<i64>,
    system_audio_end_ns: Option<i64>,
    microphone_end_ns: Option<i64>,
) -> (r: i64)
    ensures
        r >= end_or_zero(last_frame_ns),
        r >= end_or_zero(system_audio_end_ns),
        r >= end_or_zero(microphone_end_ns),
        r == end_or_zero(last_frame_ns) || r == end_or_zero(system_audio_end_ns) || r
            == end_or_zero(microphone_end_ns),
{
    let frame = match last_frame_ns {
        Some(end) => end,
        None => 0,
    };
    let system = match system_audio_end_ns {
        Some(end) => end,
        None => 0,
    };
    let microphone = match microphone_end_ns {
        Some(end) => end,
        None => 0,
    };
    let mut end = frame;
    if system > end {
        end = system;
    }
    if microphone > end {
        end = microphone;
    }
    end
}

} // verus!
