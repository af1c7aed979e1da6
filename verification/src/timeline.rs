//! The mapping from captured frames onto the movie's own timeline.
//!
//! Two clocks are involved. Frame timestamps come from the capture source and
//! keep motion smooth, so frames are rebased off the first frame's timestamp.
//! The stop timestamp is derived from a monotonic wall reading anchored to the
//! same first frame, because a static screen stops producing frames and the
//! movie must still last as long as the user watched it. Paused time is taken
//! out of everything downstream of it.
use vstd::prelude::*;

use crate::arith::{clamp_i64, elapsed_i64, elapsed_ns, max_int, sat_add, sat_mul_100, sat_sub};

verus! {

/// The two clock readings of the frame that started the movie.
#[derive(Clone, Copy, Debug, PartialEq, Eq, Structural)]
pub struct Origin {
    pub source_ns: i64,
    pub wall_ns: i64,
}

/// The movie timeline. See the module documentation.
#[derive(Clone, Copy, Debug)]
pub struct Timeline {
    origin: Option<Origin>,
    last_pts_ns: Option<i64>,
    paused_since_ns: Option<i64>,
    paused_total_ns: i64,
}

/// What a timeline holds, as seen by contracts.
#[derive(Clone, Copy, Debug, PartialEq, Eq, Structural)]
pub struct TimelineView {
    /// The first frame's readings on both clocks, once there is one.
    pub origin: Option<Origin>,
    /// The last timestamp handed to a frame.
    pub last_pts_ns: Option<i64>,
    /// The wall reading at which the open pause began, if one is open.
    pub paused_since_ns: Option<i64>,
    /// The paused time of every closed pause.
    pub paused_total_ns: i64,
}

impl View for Timeline {
    type V = TimelineView;

    closed spec fn view(&self) -> TimelineView {
        TimelineView {
            origin: self.origin,
            last_pts_ns: self.last_pts_ns,
            paused_since_ns: self.paused_since_ns,
            paused_total_ns: self.paused_total_ns,
        }
    }
}

/// The empty timeline: no origin, nothing written, never paused.
pub open spec fn empty_timeline() -> TimelineView {
    TimelineView { origin: None, last_pts_ns: None, paused_since_ns: None, paused_total_ns: 0 }
}

/// Paused time up to `wall_ns`: the closed pauses plus the open one, whose span
/// counts as nothing when `wall_ns` reads before it began.
pub open spec fn paused_total_at_spec(t: TimelineView, wall_ns: i64) -> int {
    match t.paused_since_ns {
        Some(since) => clamp_i64(
            t.paused_total_ns + max_int(clamp_i64(wall_ns - since), 0),
        ),
        None => t.paused_total_ns as int,
    }
}

/// The timestamp media read at `source_ns` gets against the origin `o`: time
/// since the origin on the source clock, less the paused time, never negative.
pub open spec fn media_pts_from(o: Origin, t: TimelineView, source_ns: i64, wall_ns: i64) -> int {
    max_int(clamp_i64(clamp_i64(source_ns - o.source_ns) - paused_total_at_spec(t, wall_ns)), 0)
}

/// The origin a timeline has after it has seen a frame read at these two
/// instants: its own, or this frame's if it had none.
pub open spec fn origin_after(t: TimelineView, source_ns: i64, wall_ns: i64) -> Origin {
    match t.origin {
        Some(o) => o,
        None => Origin { source_ns, wall_ns },
    }
}

/// The first timestamp a frame may take after `last`: one nanosecond later.
pub open spec fn after_last(last: Option<i64>) -> int {
    match last {
        Some(l) => clamp_i64(l + 1),
        None => 0,
    }
}

/// The timestamp the next frame is written at: its media timestamp, pushed past
/// the previous frame's when it would not advance.
pub open spec fn frame_pts_spec(t: TimelineView, source_ns: i64, wall_ns: i64) -> int {
    let media = media_pts_from(origin_after(t, source_ns, wall_ns), t, source_ns, wall_ns);
    match t.last_pts_ns {
        Some(l) => max_int(media, clamp_i64(l + 1)),
        None => media,
    }
}

/// The timestamp media on the wall clock gets: time since the origin's wall
/// reading less the paused time, never negative; zero before the movie starts.
pub open spec fn wall_pts_spec(t: TimelineView, wall_ns: i64) -> int {
    match t.origin {
        Some(o) => max_int(
            clamp_i64(clamp_i64(wall_ns - o.wall_ns) - paused_total_at_spec(t, wall_ns)),
            0,
        ),
        None => 0,
    }
}

/// Where the movie ends: the wall-clock time it has been recording for, but
/// never before just after the last frame written; zero before it starts.
pub open spec fn stop_pts_spec(t: TimelineView, wall_ns: i64) -> int {
    match t.origin {
        Some(o) => max_int(wall_pts_spec(t, wall_ns), after_last(t.last_pts_ns)),
        None => 0,
    }
}

/// The timeline after a pause is asked for at `wall_ns`.
pub open spec fn paused_spec(t: TimelineView, wall_ns: i64) -> TimelineView {
    match t.paused_since_ns {
        Some(_) => t,
        None => TimelineView { paused_since_ns: Some(wall_ns), ..t },
    }
}

/// The timeline after a resume is asked for at `wall_ns`.
pub open spec fn resumed_spec(t: TimelineView, wall_ns: i64) -> TimelineView {
    match t.paused_since_ns {
        Some(since) => TimelineView {
            paused_since_ns: None,
            paused_total_ns: clamp_i64(
                t.paused_total_ns + max_int(clamp_i64(wall_ns - since), 0),
            ) as i64,
            ..t
        },
        None => t,
    }
}

/// The movie starts at zero, whatever the capture clock reads when its first
/// frame arrives.
pub proof fn law_the_movie_starts_at_zero(source_ns: i64, wall_ns: i64)
    ensures
        frame_pts_spec(empty_timeline(), source_ns, wall_ns) == 0,
{
}

/// Without pauses, frames keep the spacing the capture clock gave them: a
/// frame lands at its capture time less the first frame's, once that is past
/// the last frame written.
pub proof fn law_frames_keep_their_spacing(t: TimelineView, source_ns: i64, wall_ns: i64)
    requires
        t.origin matches Some(o) && o.source_ns <= source_ns && source_ns - o.source_ns
            <= i64::MAX,
        t.paused_since_ns is None,
        t.paused_total_ns == 0,
        t.last_pts_ns matches Some(l) && l < source_ns - t.origin.unwrap().source_ns,
    ensures
        frame_pts_spec(t, source_ns, wall_ns) == source_ns - t.origin.unwrap().source_ns,
{
}

/// Frames never stand still: the next frame's timestamp is strictly later than
/// the last one written, whatever the two clocks read.
pub proof fn law_frames_never_stand_still(t: TimelineView, source_ns: i64, wall_ns: i64)
    requires
        t.last_pts_ns matches Some(l) && l < i64::MAX,
    ensures
        frame_pts_spec(t, source_ns, wall_ns) > t.last_pts_ns.unwrap(),
{
}

/// The movie ends after the last frame that was written, so the cached final
/// frame always lands at a fresh timestamp.
pub proof fn law_stop_comes_after_the_last_frame(t: TimelineView, wall_ns: i64)
    requires
        t.origin is Some,
        t.last_pts_ns matches Some(l) && l < i64::MAX,
    ensures
        stop_pts_spec(t, wall_ns) > t.last_pts_ns.unwrap(),
{
}

/// A movie has no ending, and no wall-clock media time, before it has a
/// beginning.
pub proof fn law_no_ending_before_a_beginning(t: TimelineView, wall_ns: i64)
    requires
        t.origin is None,
    ensures
        stop_pts_spec(t, wall_ns) == 0,
        wall_pts_spec(t, wall_ns) == 0,
{
}

/// Pausing twice is pausing once: the second request is ignored and the pause
/// keeps its first instant.
pub proof fn law_pausing_twice_is_pausing_once(t: TimelineView, first: i64, second: i64)
    ensures
        paused_spec(paused_spec(t, first), second) == paused_spec(t, first),
{
}

/// Resuming a timeline that is not paused changes nothing.
pub proof fn law_resuming_without_a_pause_changes_nothing(t: TimelineView, wall_ns: i64)
    requires
        t.paused_since_ns is None,
    ensures
        resumed_spec(t, wall_ns) == t,
{
}

/// A pause from `from` to `to` adds exactly its span to the paused total, and
/// leaves the timeline unpaused with everything else as it was.
pub proof fn law_a_pause_adds_its_span(t: TimelineView, from: i64, to: i64)
    requires
        t.paused_since_ns is None,
        from <= to,
        0 <= t.paused_total_ns,
        t.paused_total_ns + (to - from) <= i64::MAX,
    ensures
        resumed_spec(paused_spec(t, from), to) == (TimelineView {
            paused_total_ns: (t.paused_total_ns + (to - from)) as i64,
            ..t
        }),
{
}

/// Wall-clock media lands at the time since the movie began less the time spent
/// paused, counting a pause that is still open up to the reading.
pub proof fn law_paused_time_is_taken_out(t: TimelineView, wall_ns: i64)
    requires
        t.origin matches Some(o) && o.wall_ns <= wall_ns && wall_ns - o.wall_ns <= i64::MAX,
        0 <= t.paused_total_ns,
        match t.paused_since_ns {
            Some(since) => since <= wall_ns && t.paused_total_ns + (wall_ns - since) <= i64::MAX,
            None => true,
        },
    ensures
        wall_pts_spec(t, wall_ns) == max_int(
            wall_ns - t.origin.unwrap().wall_ns - match t.paused_since_ns {
                Some(since) => t.paused_total_ns + (wall_ns - since),
                None => t.paused_total_ns as int,
            },
            0,
        ),
{
}

/// A call made on a timeline, with its readings: what the laws over sequences
/// of calls range over.
pub enum TimelineCall {
    Pause(i64),
    Resume(i64),
    /// `frame_pts_ns(source_ns, wall_ns)`.
    Frame(i64, i64),
    /// `media_pts_ns(source_ns, wall_ns)`.
    Media(i64, i64),
    /// `start_at(source_ns, wall_ns)`.
    StartAt(i64, i64),
    /// `wall_pts_ns`, `stop_pts_ns` or another reading that changes nothing.
    Read,
}

/// A timeline after one call, as that call's contract states it.
pub open spec fn after_call(t: TimelineView, call: TimelineCall) -> TimelineView {
    match call {
        TimelineCall::Pause(wall_ns) => paused_spec(t, wall_ns),
        TimelineCall::Resume(wall_ns) => resumed_spec(t, wall_ns),
        TimelineCall::Frame(source_ns, wall_ns) => TimelineView {
            origin: Some(origin_after(t, source_ns, wall_ns)),
            last_pts_ns: Some(frame_pts_spec(t, source_ns, wall_ns) as i64),
            ..t
        },
        TimelineCall::Media(source_ns, wall_ns) => TimelineView {
            origin: Some(origin_after(t, source_ns, wall_ns)),
            ..t
        },
        TimelineCall::StartAt(source_ns, wall_ns) => TimelineView {
            origin: Some(origin_after(t, source_ns, wall_ns)),
            ..t
        },
        TimelineCall::Read => t,
    }
}

/// A timeline after a sequence of calls, in order.
pub open spec fn after_calls(t: TimelineView, calls: Seq<TimelineCall>) -> TimelineView
    decreases calls.len(),
{
    if calls.len() == 0 {
        t
    } else {
        after_call(after_calls(t, calls.drop_last()), calls.last())
    }
}

/// Whether a call gives the movie its origin.
pub open spec fn starts_the_movie(call: TimelineCall) -> bool {
    call is Frame || call is Media || call is StartAt
}

/// Whether the latest pause or resume among `calls` is a pause.
pub open spec fn last_switch_is_a_pause(calls: Seq<TimelineCall>) -> bool
    decreases calls.len(),
{
    if calls.len() == 0 {
        false
    } else {
        match calls.last() {
            TimelineCall::Pause(_) => true,
            TimelineCall::Resume(_) => false,
            _ => last_switch_is_a_pause(calls.drop_last()),
        }
    }
}

/// Where a fresh timeline stands after `calls`: both facts the two laws below
/// state, proved together.
proof fn lemma_fresh_timeline_after(calls: Seq<TimelineCall>)
    ensures
        (after_calls(empty_timeline(), calls).origin is Some) <==> exists|i: int|
            0 <= i < calls.len() && #[trigger] starts_the_movie(calls[i]),
        (after_calls(empty_timeline(), calls).paused_since_ns is Some) <==> last_switch_is_a_pause(
            calls,
        ),
    decreases calls.len(),
{
    if calls.len() > 0 {
        let earlier = calls.drop_last();
        let last = calls.last();
        lemma_fresh_timeline_after(earlier);
        let before = after_calls(empty_timeline(), earlier);
        assert(after_calls(empty_timeline(), calls) == after_call(before, last));
        assert((after_call(before, last).origin is Some) <==> (before.origin is Some
            || starts_the_movie(last)));
        if starts_the_movie(last) {
            assert(starts_the_movie(calls[calls.len() - 1]));
        }
        if exists|i: int| 0 <= i < earlier.len() && #[trigger] starts_the_movie(earlier[i]) {
            let i = choose|i: int| 0 <= i < earlier.len() && #[trigger] starts_the_movie(earlier[i]);
            assert(calls[i] == earlier[i]);
        }
        if exists|i: int| 0 <= i < calls.len() && #[trigger] starts_the_movie(calls[i]) {
            let i = choose|i: int| 0 <= i < calls.len() && #[trigger] starts_the_movie(calls[i]);
            if i < calls.len() - 1 {
                assert(earlier[i] == calls[i]);
            }
        }
    }
}

/// A timeline made by `Timeline::default()` (whose view is `empty_timeline()`)
/// has started, as `has_started()` reports it, after any sequence of calls
/// exactly when one of them was `frame_pts_ns`, `media_pts_ns` or `start_at`,
/// whatever pauses, resumes and readings came in between. Each call changes
/// the timeline as `after_call` says, which is its own contract.
pub proof fn law_has_started_after_calls(calls: Seq<TimelineCall>)
    ensures
        (after_calls(empty_timeline(), calls).origin is Some) <==> exists|i: int|
            0 <= i < calls.len() && #[trigger] starts_the_movie(calls[i]),
{
    lemma_fresh_timeline_after(calls);
}

/// A timeline made by `Timeline::default()` is paused, as `is_paused()`
/// reports it, after any sequence of calls exactly when at least one pause or
/// resume was called and the latest of them was a pause, whatever other calls
/// came in between.
pub proof fn law_is_paused_after_calls(calls: Seq<TimelineCall>)
    ensures
        (after_calls(empty_timeline(), calls).paused_since_ns is Some) <==> last_switch_is_a_pause(
            calls,
        ),
{
    lemma_fresh_timeline_after(calls);
}

/// What a writer does with a captured frame.
#[derive(Clone, Copy, Debug, PartialEq, Eq, Structural)]
pub enum FramePlacement {
    /// Captured after the user pressed stop: dropped.
    AfterStop,
    /// Captured during a pause: kept only as the latest frame seen.
    HeldWhilePaused,
    /// The first frame of a track whose zero another track has not set yet:
    /// kept only as the latest frame seen.
    AwaitingOrigin,
    /// Written at `pts_ns`; `first` when it is the frame that starts the movie.
    Write { pts_ns: i64, first: bool },
}

/// The placement of a frame, and the timeline afterwards. `origin_ns` is the
/// instant the shared movie zero was set at, if it has been; `base_ns` is the
/// instant the writer measures its wall clock from; the frame was read at
/// `source_100ns` on the capture clock (in 100 ns units) and `wall_ns` on the
/// monotonic one.
pub open spec fn place_frame_spec(
    t: TimelineView,
    stopped_at_ns: Option<u64>,
    origin_ns: Option<u64>,
    base_ns: u64,
    source_100ns: i64,
    wall_ns: u64,
) -> (TimelineView, FramePlacement) {
    let source_ns = clamp_i64(source_100ns * 100) as i64;
    let wall = elapsed_i64(base_ns, wall_ns) as i64;
    if stopped_at_ns matches Some(stop) && wall_ns > stop {
        (t, FramePlacement::AfterStop)
    } else if t.paused_since_ns is Some {
        (t, FramePlacement::HeldWhilePaused)
    } else if t.origin is None {
        match origin_ns {
            None => (t, FramePlacement::AwaitingOrigin),
            Some(origin) => {
                let offset = elapsed_i64(origin, wall_ns);
                let started = TimelineView {
                    origin: Some(
                        Origin {
                            source_ns: clamp_i64(source_ns - offset) as i64,
                            wall_ns: elapsed_i64(base_ns, origin) as i64,
                        },
                    ),
                    ..t
                };
                let pts = frame_pts_spec(started, source_ns, wall);
                (
                    TimelineView { last_pts_ns: Some(pts as i64), ..started },
                    FramePlacement::Write { pts_ns: pts as i64, first: true },
                )
            },
        }
    } else {
        let pts = frame_pts_spec(t, source_ns, wall);
        (
            TimelineView { last_pts_ns: Some(pts as i64), ..t },
            FramePlacement::Write { pts_ns: pts as i64, first: false },
        )
    }
}

/// Decides what a writer does with a captured frame, advancing the timeline
/// when the frame is to be written. The first frame of a track is placed
/// against the shared movie zero: its capture-clock origin is moved back by
/// however long after the zero it arrived, so tracks started at different
/// moments share one timeline.
pub fn place_frame(
    timeline: &mut Timeline,
    stopped_at_ns: Option<u64>,
    origin_ns: Option<u64>,
    base_ns: u64,
    source_100ns: i64,
    wall_ns: u64,
) -> (r: FramePlacement)
    ensures
        (final(timeline)@, r) == place_frame_spec(
            old(timeline)@,
            stopped_at_ns,
            origin_ns,
            base_ns,
            source_100ns,
            wall_ns,
        ),
{
    let stopped = match stopped_at_ns {
        Some(stop) => wall_ns > stop,
        None => false,
    };
    if stopped {
        return FramePlacement::AfterStop;
    }
    if timeline.is_paused() {
        return FramePlacement::HeldWhilePaused;
    }
    let is_first = !timeline.has_started();
    let source_ns = sat_mul_100(source_100ns);
    if is_first {
        match origin_ns {
            None => {
                return FramePlacement::AwaitingOrigin;
            },
            Some(origin) => {
                let offset = elapsed_ns(origin, wall_ns);
                timeline.start_at(sat_sub(source_ns, offset), elapsed_ns(base_ns, origin));
            },
        }
    }
    let wall = elapsed_ns(base_ns, wall_ns);
    let pts = timeline.frame_pts_ns(source_ns, wall);
    FramePlacement::Write { pts_ns: pts, first: is_first }
}

/// A frame written by a writer always lands strictly after the one before it,
/// and nothing captured after the stop instant is ever written.
pub proof fn law_placed_frames_advance(
    t: TimelineView,
    stopped_at_ns: Option<u64>,
    origin_ns: Option<u64>,
    base_ns: u64,
    source_100ns: i64,
    wall_ns: u64,
)
    ensures
        ({
            let (after, placement) = place_frame_spec(
                t,
                stopped_at_ns,
                origin_ns,
                base_ns,
                source_100ns,
                wall_ns,
            );
            &&& (stopped_at_ns matches Some(stop) && wall_ns > stop) ==> placement
                == FramePlacement::AfterStop
            &&& placement matches FramePlacement::Write { pts_ns, first } ==> {
                &&& (t.last_pts_ns matches Some(l) && l < i64::MAX ==> pts_ns > t.last_pts_ns.unwrap())
                &&& after.last_pts_ns == Some(pts_ns)
                &&& first == (t.origin is None)
            }
            &&& !(placement is Write) ==> after == t
        }),
{
}

impl Default for Timeline {
    /// A timeline that has seen nothing yet.
    fn default() -> (t: Timeline)
        ensures
            t@ == empty_timeline(),
    {
        Timeline { origin: None, last_pts_ns: None, paused_since_ns: None, paused_total_ns: 0 }
    }
}

impl Timeline {
    /// What every timeline keeps: the paused time is never negative, and a
    /// frame is only ever written once the movie has an origin.
    #[verifier::type_invariant]
    spec fn is_consistent(self) -> bool {
        &&& self.paused_total_ns >= 0
        &&& self.last_pts_ns is Some ==> self.origin is Some
    }

    /// Whether the movie has an origin yet, which is what starts it.
    pub fn has_started(&self) -> (r: bool)
        ensures
            r == self@.origin.is_some(),
    {
        self.origin.is_some()
    }

    /// Whether a pause is open.
    pub fn is_paused(&self) -> (r: bool)
        ensures
            r == self@.paused_since_ns.is_some(),
    {
        self.paused_since_ns.is_some()
    }

    /// Paused time so far, counting an open pause up to `wall_ns`.
    fn paused_total_at(&self, wall_ns: i64) -> (r: i64)
        ensures
            r == paused_total_at_spec(self@, wall_ns),
    {
        match self.paused_since_ns {
            Some(since) => {
                let span = sat_sub(wall_ns, since);
                let span = if span > 0 {
                    span
                } else {
                    0
                };
                sat_add(self.paused_total_ns, span)
            },
            None => self.paused_total_ns,
        }
    }

    /// Opens a pause. Pausing an already paused timeline is ignored, which
    /// keeps the first instant of the pause as its beginning.
    pub fn pause(&mut self, wall_ns: i64)
        ensures
            final(self)@ == paused_spec(old(self)@, wall_ns),
    {
        proof {
            use_type_invariant(&*self);
        }
        if self.paused_since_ns.is_none() {
            self.paused_since_ns = Some(wall_ns);
        }
    }

    /// Closes a pause, folding its span into the running total. Resuming a
    /// timeline that is not paused changes nothing.
    pub fn resume(&mut self, wall_ns: i64)
        ensures
            final(self)@ == resumed_spec(old(self)@, wall_ns),
    {
        proof {
            use_type_invariant(&*self);
        }
        match self.paused_since_ns {
            Some(since) => {
                let span = sat_sub(wall_ns, since);
                let span = if span > 0 {
                    span
                } else {
                    0
                };
                self.paused_total_ns = sat_add(self.paused_total_ns, span);
                self.paused_since_ns = None;
            },
            None => {},
        }
    }

    /// Gives the movie its origin from the outside, for a track whose zero is
    /// set by another one. A timeline that already has an origin keeps it.
    pub fn start_at(&mut self, source_ns: i64, wall_ns: i64)
        ensures
            final(self)@ == (TimelineView {
                origin: Some(origin_after(old(self)@, source_ns, wall_ns)),
                ..old(self)@
            }),
    {
        proof {
            use_type_invariant(&*self);
        }
        if self.origin.is_none() {
            self.origin = Some(Origin { source_ns, wall_ns });
        }
    }

    /// The timestamp media read at `source_ns` (and `wall_ns` on the wall
    /// clock) is written at, adopting this reading as the origin when the
    /// movie has none yet; the media that starts the movie lands at zero.
    pub fn media_pts_ns(&mut self, source_ns: i64, wall_ns: i64) -> (r: i64)
        ensures
            final(self)@ == (TimelineView {
                origin: Some(origin_after(old(self)@, source_ns, wall_ns)),
                ..old(self)@
            }),
            r == media_pts_from(origin_after(old(self)@, source_ns, wall_ns), old(self)@, source_ns, wall_ns),
            r >= 0,
            old(self)@.origin is None ==> r == 0,
    {
        proof {
            use_type_invariant(&*self);
        }
        let origin = match self.origin {
            Some(o) => o,
            None => {
                let o = Origin { source_ns, wall_ns };
                self.origin = Some(o);
                o
            },
        };
        let elapsed = sat_sub(source_ns, origin.source_ns);
        let pts = sat_sub(elapsed, self.paused_total_at(wall_ns));
        if pts > 0 {
            pts
        } else {
            0
        }
    }

    /// The timestamp the next frame is written at. It always advances past the
    /// previous frame's: a writer rejects a frame whose timestamp stands still.
    /// The frame that starts the movie lands at zero.
    pub fn frame_pts_ns(&mut self, source_ns: i64, wall_ns: i64) -> (r: i64)
        ensures
            r == frame_pts_spec(old(self)@, source_ns, wall_ns),
            final(self)@ == (TimelineView {
                origin: Some(origin_after(old(self)@, source_ns, wall_ns)),
                last_pts_ns: Some(r),
                ..old(self)@
            }),
            r >= 0,
            r >= after_last(old(self)@.last_pts_ns),
            old(self)@.origin is None ==> r == 0,
    {
        proof {
            use_type_invariant(&*self);
        }
        let mut pts = self.media_pts_ns(source_ns, wall_ns);
        match self.last_pts_ns {
            Some(last) => {
                let next = sat_add(last, 1);
                if next > pts {
                    pts = next;
                }
            },
            None => {},
        }
        self.last_pts_ns = Some(pts);
        pts
    }

    /// Maps media whose clock is the wall clock (a microphone, say) onto the
    /// movie. Before the movie has started this is zero.
    pub fn wall_pts_ns(&self, wall_ns: i64) -> (r: i64)
        ensures
            r == wall_pts_spec(self@, wall_ns),
            r >= 0,
    {
        match self.origin {
            Some(origin) => {
                let elapsed = sat_sub(wall_ns, origin.wall_ns);
                let pts = sat_sub(elapsed, self.paused_total_at(wall_ns));
                if pts > 0 {
                    pts
                } else {
                    0
                }
            },
            None => 0,
        }
    }

    /// Where the movie ends, in its own timeline. This is also where the last
    /// frame seen is appended once more, so a static screen still produces a
    /// movie as long as the user watched it.
    pub fn stop_pts_ns(&self, wall_ns: i64) -> (r: i64)
        ensures
            r == stop_pts_spec(self@, wall_ns),
            r >= 0,
    {
        match self.origin {
            Some(_) => {
                let pts = self.wall_pts_ns(wall_ns);
                let after = match self.last_pts_ns {
                    Some(last) => sat_add(last, 1),
                    None => 0,
                };
                if after > pts {
                    after
                } else {
                    pts
                }
            },
            None => 0,
        }
    }
}

} // verus!
