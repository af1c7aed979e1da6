//! The recording state machine that every window of the app observes.
//!
//! Epoch-millisecond timestamps are stamped here so every window, including
//! ones that reload or join late, derives the same elapsed time from a
//! snapshot.
use vstd::prelude::*;
use vstd::string::*;

verus! {

/// The frame rate the recording bar asks for when it says nothing.
pub const DEFAULT_FPS: u32 = 60;

/// The frame rate a request without one is recorded at.
pub fn default_fps() -> (r: u32)
    ensures
        r == DEFAULT_FPS,
{
    DEFAULT_FPS
}

/// Where a recording is in its life.
#[derive(Clone, Copy, Debug, PartialEq, Eq, Structural)]
pub enum RecordingStatus {
    Idle,
    Starting,
    Recording,
    Paused,
    Stopping,
}

impl Default for RecordingStatus {
    /// A new app is idle.
    fn default() -> (r: RecordingStatus)
        ensures
            r == RecordingStatus::Idle,
    {
        RecordingStatus::Idle
    }
}

/// The name a status goes by in messages and events.
pub open spec fn status_label(status: RecordingStatus) -> Seq<char> {
    match status {
        RecordingStatus::Idle => "idle"@,
        RecordingStatus::Starting => "starting"@,
        RecordingStatus::Recording => "recording"@,
        RecordingStatus::Paused => "paused"@,
        RecordingStatus::Stopping => "stopping"@,
    }
}

impl RecordingStatus {
    /// The status's name, as it appears in messages and events.
    pub fn label(self) -> (r: &'static str)
        ensures
            r@ == status_label(self),
    {
        match self {
            RecordingStatus::Idle => "idle",
            RecordingStatus::Starting => "starting",
            RecordingStatus::Recording => "recording",
            RecordingStatus::Paused => "paused",
            RecordingStatus::Stopping => "stopping",
        }
    }
}

/// What is being recorded.
#[derive(Clone, Copy, Debug, PartialEq, Eq, Structural)]
pub enum RecordingMode {
    Screen,
    Region,
    Window,
    Camera,
    Audio,
}

/// The state every window is shown. `started_at_ms` is when the current run of
/// recording began (the last start or resume); `accumulated_ms` is the time
/// recorded by earlier runs; `paused_at_ms` is when the open pause began.
#[derive(Clone, Copy, Debug, PartialEq, Eq, Structural)]
pub struct RecordingSnapshot {
    pub status: RecordingStatus,
    pub mode: Option<RecordingMode>,
    pub started_at_ms: Option<u64>,
    pub accumulated_ms: u64,
    pub paused_at_ms: Option<u64>,
}

/// The snapshot of an app that is not recording.
pub open spec fn idle_snapshot() -> RecordingSnapshot {
    RecordingSnapshot {
        status: RecordingStatus::Idle,
        mode: None,
        started_at_ms: None,
        accumulated_ms: 0,
        paused_at_ms: None,
    }
}

impl Default for RecordingSnapshot {
    /// The snapshot of an app that is not recording.
    fn default() -> (r: RecordingSnapshot)
        ensures
            r == idle_snapshot(),
    {
        RecordingSnapshot {
            status: RecordingStatus::Idle,
            mode: None,
            started_at_ms: None,
            accumulated_ms: 0,
            paused_at_ms: None,
        }
    }
}

/// The moves the state machine allows: start, begin, abandon a start, pause,
/// resume, stop from either running state, and finish a stop.
pub open spec fn is_legal_transition(from: RecordingStatus, to: RecordingStatus) -> bool {
    match (from, to) {
        (RecordingStatus::Idle, RecordingStatus::Starting) => true,
        (RecordingStatus::Starting, RecordingStatus::Recording) => true,
        (RecordingStatus::Starting, RecordingStatus::Idle) => true,
        (RecordingStatus::Recording, RecordingStatus::Paused) => true,
        (RecordingStatus::Paused, RecordingStatus::Recording) => true,
        (RecordingStatus::Recording, RecordingStatus::Stopping) => true,
        (RecordingStatus::Paused, RecordingStatus::Stopping) => true,
        (RecordingStatus::Stopping, RecordingStatus::Idle) => true,
        _ => false,
    }
}

/// The span of the current recording run at `now`: time since the last start
/// or resume while recording, and nothing otherwise.
pub open spec fn open_span_spec(s: RecordingSnapshot, now: u64) -> int {
    match s.started_at_ms {
        Some(started) => if s.status == RecordingStatus::Recording {
            if now >= started {
                now - started
            } else {
                0
            }
        } else {
            0
        },
        None => 0,
    }
}

/// `a + b`, stuck at `u64::MAX`.
pub open spec fn sat_add_u64(a: u64, b: int) -> u64 {
    if a + b > u64::MAX {
        u64::MAX
    } else {
        (a + b) as u64
    }
}

/// The snapshot after a legal move to `to` at `now`.
pub open spec fn transitioned(
    s: RecordingSnapshot,
    to: RecordingStatus,
    mode: Option<RecordingMode>,
    now: u64,
) -> RecordingSnapshot {
    match (s.status, to) {
        (RecordingStatus::Idle, RecordingStatus::Starting) => RecordingSnapshot {
            status: RecordingStatus::Starting,
            mode,
            ..idle_snapshot()
        },
        (RecordingStatus::Starting, RecordingStatus::Recording) | (
            RecordingStatus::Paused,
            RecordingStatus::Recording,
        ) => RecordingSnapshot {
            status: RecordingStatus::Recording,
            started_at_ms: Some(now),
            paused_at_ms: None,
            ..s
        },
        (RecordingStatus::Recording, RecordingStatus::Paused) => RecordingSnapshot {
            status: RecordingStatus::Paused,
            accumulated_ms: sat_add_u64(s.accumulated_ms, open_span_spec(s, now)),
            started_at_ms: None,
            paused_at_ms: Some(now),
            ..s
        },
        (RecordingStatus::Recording, RecordingStatus::Stopping) | (
            RecordingStatus::Paused,
            RecordingStatus::Stopping,
        ) => RecordingSnapshot {
            status: RecordingStatus::Stopping,
            accumulated_ms: sat_add_u64(s.accumulated_ms, open_span_spec(s, now)),
            started_at_ms: None,
            paused_at_ms: None,
            ..s
        },
        _ => idle_snapshot(),
    }
}

/// The message a refused move is answered with.
pub open spec fn refusal_message(from: RecordingStatus, to: RecordingStatus) -> Seq<char> {
    "A recording cannot move from "@ + status_label(from) + " to "@ + status_label(to)
}

/// The consistency every snapshot the state machine produces keeps: a run
/// start exactly while recording, a pause start exactly while paused, nothing
/// at all while idle, and no time yet while starting.
pub open spec fn snapshot_wf(s: RecordingSnapshot) -> bool {
    &&& (s.status == RecordingStatus::Recording <==> s.started_at_ms is Some)
    &&& (s.status == RecordingStatus::Paused <==> s.paused_at_ms is Some)
    &&& (s.status == RecordingStatus::Idle ==> s == idle_snapshot())
    &&& (s.status == RecordingStatus::Starting ==> s.accumulated_ms == 0)
}

/// The elapsed recording time a window shows at `now`.
pub open spec fn elapsed_spec(s: RecordingSnapshot, now: u64) -> int {
    s.accumulated_ms + open_span_spec(s, now)
}

/// The idle snapshot is consistent, and every legal move keeps a snapshot
/// consistent.
pub proof fn law_transitions_keep_snapshots_consistent(
    s: RecordingSnapshot,
    to: RecordingStatus,
    mode: Option<RecordingMode>,
    now: u64,
)
    requires
        snapshot_wf(s),
        is_legal_transition(s.status, to),
    ensures
        snapshot_wf(idle_snapshot()),
        snapshot_wf(transitioned(s, to, mode, now)),
        transitioned(s, to, mode, now).status == to,
{
}

/// Returning to idle, from a start or a stop, clears the snapshot.
pub proof fn law_returning_to_idle_clears_the_snapshot(
    s: RecordingSnapshot,
    mode: Option<RecordingMode>,
    now: u64,
)
    requires
        is_legal_transition(s.status, RecordingStatus::Idle),
    ensures
        transitioned(s, RecordingStatus::Idle, mode, now) == idle_snapshot(),
{
}

/// Recorded time is never lost: every legal move other than the return to idle
/// keeps or grows the accumulated time.
pub proof fn law_accumulated_time_never_shrinks(
    s: RecordingSnapshot,
    to: RecordingStatus,
    mode: Option<RecordingMode>,
    now: u64,
)
    requires
        snapshot_wf(s),
        is_legal_transition(s.status, to),
        to != RecordingStatus::Idle,
    ensures
        transitioned(s, to, mode, now).accumulated_ms >= s.accumulated_ms,
{
}

/// Pausing freezes the elapsed time: after a pause at `at`, a window shows at
/// every later moment the time it showed at `at`.
pub proof fn law_a_pause_freezes_the_elapsed_time(
    s: RecordingSnapshot,
    at: u64,
    later: u64,
)
    requires
        s.status == RecordingStatus::Recording,
        elapsed_spec(s, at) <= u64::MAX,
    ensures
        elapsed_spec(transitioned(s, RecordingStatus::Paused, None, at), later) == elapsed_spec(
            s,
            at,
        ),
{
}

/// Resuming does not count the pause: after a resume at `at`, the elapsed time
/// is the frozen total plus the time since the resume.
pub proof fn law_resuming_does_not_count_the_pause(s: RecordingSnapshot, at: u64, later: u64)
    requires
        s.status == RecordingStatus::Paused,
        at <= later,
    ensures
        elapsed_spec(transitioned(s, RecordingStatus::Recording, None, at), later)
            == s.accumulated_ms + (later - at),
{
}

/// Stopping keeps the elapsed time the recording had when it was stopped.
pub proof fn law_stopping_keeps_the_elapsed_time(s: RecordingSnapshot, at: u64, later: u64)
    requires
        s.status == RecordingStatus::Recording || s.status == RecordingStatus::Paused,
        elapsed_spec(s, at) <= u64::MAX,
    ensures
        elapsed_spec(transitioned(s, RecordingStatus::Stopping, None, at), later) == elapsed_spec(
            s,
            at,
        ),
{
}

/// The span of the current recording run, i.e. time since the last resume.
pub fn open_span_ms(snapshot: &RecordingSnapshot, now: u64) -> (r: u64)
    ensures
        r == open_span_spec(*snapshot, now),
{
    match snapshot.started_at_ms {
        Some(started_at_ms) => {
            if snapshot.status == RecordingStatus::Recording {
                now.saturating_sub(started_at_ms)
            } else {
                0
            }
        },
        None => 0,
    }
}

/// Validates the move to `to` and, only if it is legal, applies it at `now`.
/// A refused move leaves the snapshot exactly as it was.
pub fn apply_transition(
    snapshot: &mut RecordingSnapshot,
    to: RecordingStatus,
    mode: Option<RecordingMode>,
    now: u64,
) -> (r: Result<(), String>)
    ensures
        r is Ok <==> is_legal_transition(old(snapshot).status, to),
        r is Ok ==> *final(snapshot) == transitioned(*old(snapshot), to, mode, now),
        r matches Err(message) ==> *final(snapshot) == *old(snapshot) && message@ == refusal_message(
            old(snapshot).status,
            to,
        ),
{
    match (snapshot.status, to) {
        (RecordingStatus::Idle, RecordingStatus::Starting) => {
            *snapshot = RecordingSnapshot {
                status: RecordingStatus::Starting,
                mode,
                started_at_ms: None,
                accumulated_ms: 0,
                paused_at_ms: None,
            };
        },
        (RecordingStatus::Starting, RecordingStatus::Recording) | (
            RecordingStatus::Paused,
            RecordingStatus::Recording,
        ) => {
            snapshot.status = RecordingStatus::Recording;
            snapshot.started_at_ms = Some(now);
            snapshot.paused_at_ms = None;
        },
        (RecordingStatus::Recording, RecordingStatus::Paused) => {
            let span = open_span_ms(snapshot, now);
            snapshot.accumulated_ms = snapshot.accumulated_ms.saturating_add(span);
            snapshot.status = RecordingStatus::Paused;
            snapshot.started_at_ms = None;
            snapshot.paused_at_ms = Some(now);
        },
        (RecordingStatus::Recording, RecordingStatus::Stopping) | (
            RecordingStatus::Paused,
            RecordingStatus::Stopping,
        ) => {
            let span = open_span_ms(snapshot, now);
            snapshot.accumulated_ms = snapshot.accumulated_ms.saturating_add(span);
            snapshot.status = RecordingStatus::Stopping;
            snapshot.started_at_ms = None;
            snapshot.paused_at_ms = None;
        },
        (RecordingStatus::Starting, RecordingStatus::Idle) | (
            RecordingStatus::Stopping,
            RecordingStatus::Idle,
        ) => {
            *snapshot = RecordingSnapshot::default();
        },
        (from, to) => {
            let mut message = String::from_str("A recording cannot move from ");
            message.append(from.label());
            message.append(" to ");
            message.append(to.label());
            return Err(message);
        },
    }
    Ok(())
}

/// The recording state the app keeps: the snapshot every window is shown, and
/// a counter that numbers start attempts so that a late confirmation of an
/// abandoned start can be recognised and ignored.
pub struct RecordingState {
    snapshot: RecordingSnapshot,
    generation: u64,
}

/// What a requested move did: the snapshot afterwards, and whether it differs
/// from the one before (only then is it worth announcing).
#[derive(Clone, Copy, Debug, PartialEq, Eq, Structural)]
pub struct TransitionOutcome {
    pub changed: bool,
    pub snapshot: RecordingSnapshot,
}

impl RecordingState {
    /// The snapshot held now.
    pub closed spec fn snapshot_spec(&self) -> RecordingSnapshot {
        self.snapshot
    }

    /// The number of the latest start attempt.
    pub closed spec fn generation_spec(&self) -> u64 {
        self.generation
    }

    /// An idle app that has made no start attempt.
    pub fn new() -> (r: RecordingState)
        ensures
            r.snapshot_spec() == idle_snapshot(),
            r.generation_spec() == 0,
    {
        RecordingState { snapshot: RecordingSnapshot::default(), generation: 0 }
    }

    /// The snapshot every window is shown.
    pub fn snapshot(&self) -> (r: RecordingSnapshot)
        ensures
            r == self.snapshot_spec(),
    {
        self.snapshot
    }

    /// Whether the app is outside a recording.
    pub fn is_idle(&self) -> (r: bool)
        ensures
            r == (self.snapshot_spec().status == RecordingStatus::Idle),
    {
        self.snapshot.status == RecordingStatus::Idle
    }

    /// Claims the current start attempt, invalidating any in-flight one, and
    /// returns its number.
    pub fn begin_start(&mut self) -> (r: u64)
        ensures
            r == final(self).generation_spec(),
            r == (if old(self).generation_spec() == u64::MAX {
                0
            } else {
                (old(self).generation_spec() + 1) as u64
            }),
            final(self).snapshot_spec() == old(self).snapshot_spec(),
    {
        self.generation = self.generation.wrapping_add(1);
        self.generation
    }

    /// Whether `generation` is still the latest start attempt.
    pub fn is_current(&self, generation: u64) -> (r: bool)
        ensures
            r == (self.generation_spec() == generation),
    {
        self.generation == generation
    }

    /// Invalidates the in-flight start so a late confirmation is ignored.
    pub fn cancel(&mut self)
        ensures
            final(self).generation_spec() == (if old(self).generation_spec() == u64::MAX {
                0
            } else {
                (old(self).generation_spec() + 1) as u64
            }),
            final(self).snapshot_spec() == old(self).snapshot_spec(),
    {
        self.generation = self.generation.wrapping_add(1);
    }

    /// Moves the held snapshot to `to` at `now` when the move is legal, and
    /// says whether anything changed; a refused move changes nothing.
    pub fn transition(
        &mut self,
        to: RecordingStatus,
        mode: Option<RecordingMode>,
        now: u64,
    ) -> (r: Result<TransitionOutcome, String>)
        ensures
            r is Ok <==> is_legal_transition(old(self).snapshot_spec().status, to),
            r matches Ok(outcome) ==> {
                &&& outcome.snapshot == transitioned(old(self).snapshot_spec(), to, mode, now)
                &&& final(self).snapshot_spec() == outcome.snapshot
                &&& outcome.changed == (outcome.snapshot != old(self).snapshot_spec())
            },
            r matches Err(message) ==> final(self).snapshot_spec() == old(self).snapshot_spec()
                && message@ == refusal_message(old(self).snapshot_spec().status, to),
            final(self).generation_spec() == old(self).generation_spec(),
    {
        let previous = self.snapshot;
        let mut current = self.snapshot;
        let applied = apply_transition(&mut current, to, mode, now);
        match applied {
            Ok(()) => {
                self.snapshot = current;
                Ok(TransitionOutcome { changed: previous != current, snapshot: current })
            },
            Err(message) => Err(message),
        }
    }
}

/// A start attempt is only ever current until the next one: claiming a new
/// attempt invalidates the previous number.
pub proof fn law_a_new_start_invalidates_the_old_one(old_generation: u64, new_generation: u64)
    requires
        new_generation == (if old_generation == u64::MAX {
            0
        } else {
            (old_generation + 1) as u64
        }),
    ensures
        new_generation != old_generation,
{
}

} // verus!
