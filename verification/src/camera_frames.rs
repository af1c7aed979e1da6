//! Frames from a webcam on their way to the encoder: when the camera has
//! warmed up, when each frame was really captured, and the byte order the
//! encoder wants.
use vstd::prelude::*;
use vstd::string::*;
use crate::names::{decimal, push_decimal_to};

verus! {

/// How long a camera must have been delivering before its frames are used.
pub const WARMUP_NS: u64 = 500_000_000;

/// How many frames a camera must have delivered before its frames are used.
pub const WARMUP_MIN_FRAMES: u64 = 4;

/// The longest a frame may plausibly have spent between capture and delivery.
pub const MAX_CAPTURE_LATENCY_NS: u64 = 2_000_000_000;

/// Whether a camera has warmed up: enough frames, over enough time. Early
/// frames from many webcams are dark or mis-exposed.
pub fn warmup_complete(frame_count: u64, elapsed_ns: u64) -> (r: bool)
    ensures
        r == (frame_count >= WARMUP_MIN_FRAMES && elapsed_ns >= WARMUP_NS),
{
    frame_count >= WARMUP_MIN_FRAMES && elapsed_ns >= WARMUP_NS
}

/// When a webcam frame was captured, on the monotonic clock, and its capture
/// time in 100 ns units. A frame whose device timestamps say it was captured a
/// plausible time before it arrived is moved back by that delivery latency and
/// keeps its device time; otherwise it is taken as captured on arrival, timed
/// from the start of the stream.
pub open spec fn frame_clock_spec(
    captured_epoch_ns: Option<u64>,
    arrived_ns: u64,
    arrival_epoch_ns: Option<u64>,
    stream_started_ns: u64,
) -> (u64, i64) {
    let plausible = captured_epoch_ns matches Some(captured) && arrival_epoch_ns matches Some(
        arrival,
    ) && captured <= arrival && arrival - captured <= MAX_CAPTURE_LATENCY_NS;
    if plausible {
        let age = (arrival_epoch_ns.unwrap() - captured_epoch_ns.unwrap()) as u64;
        (
            if arrived_ns >= age {
                (arrived_ns - age) as u64
            } else {
                arrived_ns
            },
            (captured_epoch_ns.unwrap() / 100) as i64,
        )
    } else {
        (
            arrived_ns,
            ((if arrived_ns >= stream_started_ns {
                arrived_ns - stream_started_ns
            } else {
                0
            }) / 100) as i64,
        )
    }
}

/// See `frame_clock_spec`.
pub fn camera_frame_clock(
    captured_epoch_ns: Option<u64>,
    arrived_ns: u64,
    arrival_epoch_ns: Option<u64>,
    stream_started_ns: u64,
) -> (r: (u64, i64))
    ensures
        r == frame_clock_spec(captured_epoch_ns, arrived_ns, arrival_epoch_ns, stream_started_ns),
{
    match (captured_epoch_ns, arrival_epoch_ns) {
        (Some(captured), Some(arrival)) => {
            if captured <= arrival && arrival - captured <= MAX_CAPTURE_LATENCY_NS {
                let age = arrival - captured;
                let at = if arrived_ns >= age {
                    arrived_ns - age
                } else {
                    arrived_ns
                };
                return (at, (captured / 100) as i64);
            }
        },
        _ => {},
    }
    (arrived_ns, (arrived_ns.saturating_sub(stream_started_ns) / 100) as i64)
}

/// The source channel an output channel is taken from: blue, green and red
/// swap places; alpha stays.
pub open spec fn bgra_source_channel(c: int) -> int {
    if c == 0 {
        2
    } else if c == 2 {
        0
    } else {
        c
    }
}

/// Channel `c` of output pixel (`x`, `y`) of a frame converted to BGRA and
/// mirrored when `flipped`.
pub open spec fn bgra_channel(rgba: Seq<u8>, width: int, flipped: bool, x: int, y: int, c: int) -> u8 {
    let sx = if flipped {
        width - 1 - x
    } else {
        x
    };
    rgba[(y * width + sx) * 4 + bgra_source_channel(c)]
}

/// Converts a packed RGBA frame into the BGRA order the encoder takes,
/// mirroring it left to right when `flipped`.
pub fn bgra_pixels(rgba: &[u8], width: u32, height: u32, flipped: bool) -> (r: Vec<u8>)
    requires
        rgba@.len() >= width * height * 4,
        width * height * 4 <= usize::MAX,
    ensures
        r@.len() == width * height * 4,
        forall|x: int, y: int, c: int|
            0 <= x < width && 0 <= y < height && 0 <= c < 4 ==> #[trigger] r@[(y * width + x) * 4
                + c] == bgra_channel(rgba@, width as int, flipped, x, y, c),
{
    let ghost w = width as int;
    let mut out: Vec<u8> = Vec::new();
    let mut y: u32 = 0;
    while y < height
        invariant
            w == width,
            rgba@.len() >= width * height * 4,
            width * height * 4 <= usize::MAX,
            y <= height,
            out@.len() == y * w * 4,
            forall|px: int, py: int, c: int|
                0 <= px < w && 0 <= py < y && 0 <= c < 4 ==> #[trigger] out@[(py * w + px) * 4 + c]
                    == bgra_channel(rgba@, w, flipped, px, py, c),
        decreases height - y,
    {
        let mut x: u32 = 0;
        while x < width
            invariant
                w == width,
                rgba@.len() >= width * height * 4,
                width * height * 4 <= usize::MAX,
                y < height,
                x <= width,
                out@.len() == (y * w + x) * 4,
                forall|px: int, py: int, c: int|
                    0 <= px < w && 0 <= py < y && 0 <= c < 4 ==> #[trigger] out@[(py * w + px) * 4
                        + c] == bgra_channel(rgba@, w, flipped, px, py, c),
                forall|px: int, c: int|
                    0 <= px < x && 0 <= c < 4 ==> #[trigger] out@[(y * w + px) * 4 + c]
                        == bgra_channel(rgba@, w, flipped, px, y as int, c),
            decreases width - x,
        {
            let source_x = if flipped {
                width - 1 - x
            } else {
                x
            };
            let n = rgba.len();
            assert((y * w + source_x) * 4 + 4 <= width * height * 4) by (nonlinear_arith)
                requires
                    source_x < w,
                    y < height,
                    w == width,
            ;
            assert((y * w + x) * 4 + 4 <= width * height * 4) by (nonlinear_arith)
                requires
                    x < w,
                    y < height,
                    w == width,
            ;
            let base = ((y as usize) * (width as usize) + source_x as usize) * 4;
            let ghost before = out@;
            out.push(rgba[base + 2]);
            out.push(rgba[base + 1]);
            out.push(rgba[base]);
            out.push(rgba[base + 3]);
            proof {
                let at = (y * w + x) * 4;
                assert(out@.len() == at + 4);
                assert forall|px: int, py: int, c: int|
                    0 <= px < w && 0 <= py < y && 0 <= c < 4 implies #[trigger] out@[(py * w + px)
                        * 4 + c] == bgra_channel(rgba@, w, flipped, px, py, c) by {
                    assert((py * w + px) * 4 + c < y * w * 4) by (nonlinear_arith)
                        requires
                            0 <= px < w,
                            0 <= py < y,
                            0 <= c < 4,
                    ;
                    assert(y * w * 4 <= at) by (nonlinear_arith)
                        requires
                            at == (y * w + x) * 4,
                            0 <= x,
                    ;
                    assert(out@[(py * w + px) * 4 + c] == before[(py * w + px) * 4 + c]);
                }
                assert forall|px: int, c: int|
                    0 <= px < x + 1 && 0 <= c < 4 implies #[trigger] out@[(y * w + px) * 4 + c]
                        == bgra_channel(rgba@, w, flipped, px, y as int, c) by {
                    if px < x {
                        assert((y * w + px) * 4 + c < at) by (nonlinear_arith)
                            requires
                                at == (y * w + x) * 4,
                                px < x,
                                c < 4,
                        ;
                        assert(out@[(y * w + px) * 4 + c] == before[(y * w + px) * 4 + c]);
                    } else {
                        assert((y * w + px) * 4 + c == at + c);
                    }
                }
            }
            x = x + 1;
        }
        proof {
            assert((y * w + w) * 4 == (y + 1) * w * 4) by (nonlinear_arith);
        }
        y = y + 1;
    }
    assert(height * w * 4 == width * height * 4) by (nonlinear_arith)
        requires
            w == width,
    ;
    out
}

/// What becomes of a frame a camera delivers.
#[derive(Debug, PartialEq, Eq)]
pub enum CameraFrameStep {
    /// The camera was abandoned; the frame is ignored.
    Ignore,
    /// The frame is not of the selected size: the camera is abandoned, and
    /// the message is reported if the camera had not yet been reported ready.
    WrongSize { report: Option<String> },
    /// The camera is still warming up; the frame is not used.
    WarmingUp,
    /// The frame is recorded; `ready` when it is the first, which is when the
    /// camera is reported ready.
    Record { ready: bool },
}

/// The message a camera delivering the wrong size is reported with.
pub open spec fn wrong_size_message(width: u32, height: u32, expected_width: u32, expected_height: u32) -> Seq<char> {
    "The camera delivered "@ + decimal(width as nat) + " × "@ + decimal(height as nat)
        + " instead of the selected "@ + decimal(expected_width as nat) + " × "@ + decimal(
        expected_height as nat,
    ) + " format"@
}

/// The frames of one camera on their way to a recording on macOS: each must
/// be of the selected size, checked before anything else, and none is used
/// until the camera has warmed up.
pub struct CameraGate {
    expected_width: u32,
    expected_height: u32,
    first_frame_ns: Option<u64>,
    frame_count: u64,
    abandoned: bool,
    reported: bool,
}

/// A camera gate, as contracts see it.
pub struct CameraGateView {
    pub expected_width: u32,
    pub expected_height: u32,
    pub first_frame_ns: Option<u64>,
    pub frame_count: u64,
    pub abandoned: bool,
    pub reported: bool,
}

impl View for CameraGate {
    type V = CameraGateView;

    closed spec fn view(&self) -> CameraGateView {
        CameraGateView {
            expected_width: self.expected_width,
            expected_height: self.expected_height,
            first_frame_ns: self.first_frame_ns,
            frame_count: self.frame_count,
            abandoned: self.abandoned,
            reported: self.reported,
        }
    }
}

/// Whether a camera whose gate is `g` has warmed up once a frame of the
/// selected size arrives at `now_ns`: that frame counted, it has delivered
/// enough frames over enough time since its first.
pub open spec fn warm_after(g: CameraGateView, now_ns: u64) -> bool {
    let first = match g.first_frame_ns {
        Some(first) => first,
        None => now_ns,
    };
    let count = if g.frame_count == u64::MAX {
        u64::MAX as int
    } else {
        g.frame_count + 1
    };
    let elapsed = if now_ns >= first {
        now_ns - first
    } else {
        0
    };
    count >= WARMUP_MIN_FRAMES && elapsed >= WARMUP_NS
}

/// What a frame arriving at `now_ns` does to a camera's gate: one of the wrong
/// size abandons the camera; one of the right size is counted, the first
/// setting when the warm-up began.
pub open spec fn gate_after_frame(g: CameraGateView, width: u32, height: u32, now_ns: u64) -> CameraGateView {
    if g.abandoned {
        g
    } else if width != g.expected_width || height != g.expected_height {
        CameraGateView { abandoned: true, reported: true, ..g }
    } else {
        CameraGateView {
            first_frame_ns: Some(
                match g.first_frame_ns {
                    Some(first) => first,
                    None => now_ns,
                },
            ),
            frame_count: if g.frame_count == u64::MAX {
                u64::MAX
            } else {
                (g.frame_count + 1) as u64
            },
            reported: g.reported || warm_after(g, now_ns),
            ..g
        }
    }
}

impl CameraGate {
    /// A gate for a camera recording `expected_width` by `expected_height`.
    pub fn new(expected_width: u32, expected_height: u32) -> (r: CameraGate)
        ensures
            r@ == (CameraGateView {
                expected_width,
                expected_height,
                first_frame_ns: None,
                frame_count: 0,
                abandoned: false,
                reported: false,
            }),
    {
        CameraGate {
            expected_width,
            expected_height,
            first_frame_ns: None,
            frame_count: 0,
            abandoned: false,
            reported: false,
        }
    }

    /// Decides what becomes of a frame of `width` by `height` delivered at
    /// `now_ns` (see `gate_after_frame`).
    pub fn frame(&mut self, width: u32, height: u32, now_ns: u64) -> (r: CameraFrameStep)
        ensures
            final(self)@ == gate_after_frame(old(self)@, width, height, now_ns),
            old(self)@.abandoned ==> r == CameraFrameStep::Ignore,
            !old(self)@.abandoned && (width != old(self)@.expected_width || height != old(
                self,
            )@.expected_height) ==> match r {
                CameraFrameStep::WrongSize { report } => match report {
                    Some(message) => !old(self)@.reported && message@ == wrong_size_message(
                        width,
                        height,
                        old(self)@.expected_width,
                        old(self)@.expected_height,
                    ),
                    None => old(self)@.reported,
                },
                _ => false,
            },
            !old(self)@.abandoned && width == old(self)@.expected_width && height == old(
                self,
            )@.expected_height ==> r == if warm_after(old(self)@, now_ns) {
                CameraFrameStep::Record { ready: !old(self)@.reported }
            } else {
                CameraFrameStep::WarmingUp
            },
    {
        if self.abandoned {
            return CameraFrameStep::Ignore;
        }
        if width != self.expected_width || height != self.expected_height {
            let report = if self.reported {
                None
            } else {
                let mut message = String::from_str("The camera delivered ");
                push_decimal_to(&mut message, width);
                message.append(" × ");
                push_decimal_to(&mut message, height);
                message.append(" instead of the selected ");
                push_decimal_to(&mut message, self.expected_width);
                message.append(" × ");
                push_decimal_to(&mut message, self.expected_height);
                message.append(" format");
                Some(message)
            };
            self.abandoned = true;
            self.reported = true;
            return CameraFrameStep::WrongSize { report };
        }
        let first = match self.first_frame_ns {
            Some(first) => first,
            None => now_ns,
        };
        self.first_frame_ns = Some(first);
        self.frame_count = self.frame_count.saturating_add(1);
        let elapsed = now_ns.saturating_sub(first);
        if !warmup_complete(self.frame_count, elapsed) {
            return CameraFrameStep::WarmingUp;
        }
        let ready = !self.reported;
        self.reported = true;
        CameraFrameStep::Record { ready }
    }
}

/// The message a camera recording on Windows fails with: `message` after a
/// common prefix.
pub open spec fn camera_failure_text(message: Seq<char>) -> Seq<char> {
    "Camera recording failed: "@ + message
}

/// The message a camera delivering the wrong size is reported with on
/// Windows.
pub open spec fn windows_wrong_size_message(
    width: u32,
    height: u32,
    expected_width: u32,
    expected_height: u32,
) -> Seq<char> {
    "The camera delivered "@ + decimal(width as nat) + " x "@ + decimal(height as nat)
        + " instead of the selected "@ + decimal(expected_width as nat) + " x "@ + decimal(
        expected_height as nat,
    ) + " format"@
}

/// What becomes of a frame a camera delivers on Windows.
#[derive(Debug, PartialEq, Eq)]
pub enum WindowsFrameStep {
    /// The camera was cancelled; the frame is ignored.
    Ignore,
    /// The camera is still warming up; the frame is not used.
    WarmingUp,
    /// The camera has warmed up but the frame is not of the selected size: the
    /// camera is cancelled, and `report` is the failure to report unless one was
    /// reported before. `announce` when this frame ended the warm-up, which is
    /// when the shared zero of every track is set.
    WrongSize { announce: bool, report: Option<String> },
    /// The frame is recorded; `announce` as for `WrongSize`.
    Record { announce: bool },
}

/// The frames of one camera on their way to a recording on Windows. Every
/// frame counts towards the warm-up, whatever its size; only once the camera
/// has warmed up is a frame's size checked. A failure is reported once, be it
/// a wrong size or a frame that could not be decoded.
pub struct WindowsCameraGate {
    expected_width: u32,
    expected_height: u32,
    first_frame_ns: Option<u64>,
    frame_count: u64,
    announced: bool,
    cancelled: bool,
    failure_reported: bool,
}

/// A Windows camera gate, as contracts see it.
pub struct WindowsCameraGateView {
    pub expected_width: u32,
    pub expected_height: u32,
    pub first_frame_ns: Option<u64>,
    pub frame_count: u64,
    pub announced: bool,
    pub cancelled: bool,
    pub failure_reported: bool,
}

impl View for WindowsCameraGate {
    type V = WindowsCameraGateView;

    closed spec fn view(&self) -> WindowsCameraGateView {
        WindowsCameraGateView {
            expected_width: self.expected_width,
            expected_height: self.expected_height,
            first_frame_ns: self.first_frame_ns,
            frame_count: self.frame_count,
            announced: self.announced,
            cancelled: self.cancelled,
            failure_reported: self.failure_reported,
        }
    }
}

/// Counts a frame arriving at `now_ns` into a Windows camera's gate; the
/// first frame sets when the warm-up began.
pub open spec fn windows_counted(g: WindowsCameraGateView, now_ns: u64) -> WindowsCameraGateView {
    WindowsCameraGateView {
        first_frame_ns: Some(
            match g.first_frame_ns {
                Some(first) => first,
                None => now_ns,
            },
        ),
        frame_count: if g.frame_count == u64::MAX {
            u64::MAX
        } else {
            (g.frame_count + 1) as u64
        },
        ..g
    }
}

/// Whether a Windows camera has warmed up once a frame arriving at `now_ns`
/// has been counted.
pub open spec fn windows_warm_after(g: WindowsCameraGateView, now_ns: u64) -> bool {
    let c = windows_counted(g, now_ns);
    let first = c.first_frame_ns.unwrap();
    c.frame_count >= WARMUP_MIN_FRAMES && (if now_ns >= first {
        now_ns - first
    } else {
        0
    }) >= WARMUP_NS
}

/// What a frame of `width` by `height` arriving at `now_ns` does to a Windows
/// camera's gate: a cancelled camera ignores it; otherwise it is counted, the
/// frame that ends the warm-up announces it, and a warmed-up frame of the
/// wrong size cancels the camera with its failure reported.
pub open spec fn windows_gate_after_frame(
    g: WindowsCameraGateView,
    width: u32,
    height: u32,
    now_ns: u64,
) -> WindowsCameraGateView {
    if g.cancelled {
        g
    } else if !windows_warm_after(g, now_ns) {
        windows_counted(g, now_ns)
    } else if width != g.expected_width || height != g.expected_height {
        WindowsCameraGateView {
            announced: true,
            cancelled: true,
            failure_reported: true,
            ..windows_counted(g, now_ns)
        }
    } else {
        WindowsCameraGateView { announced: true, ..windows_counted(g, now_ns) }
    }
}

impl WindowsCameraGate {
    /// A gate for a camera recording `expected_width` by `expected_height`.
    pub fn new(expected_width: u32, expected_height: u32) -> (r: WindowsCameraGate)
        ensures
            r@ == (WindowsCameraGateView {
                expected_width,
                expected_height,
                first_frame_ns: None,
                frame_count: 0,
                announced: false,
                cancelled: false,
                failure_reported: false,
            }),
    {
        WindowsCameraGate {
            expected_width,
            expected_height,
            first_frame_ns: None,
            frame_count: 0,
            announced: false,
            cancelled: false,
            failure_reported: false,
        }
    }

    /// Reports a failure of the camera, once: the message to report, prefixed,
    /// or nothing when a failure was reported before.
    pub fn report_failure(&mut self, message: String) -> (r: Option<String>)
        ensures
            final(self)@ == (WindowsCameraGateView { failure_reported: true, ..old(self)@ }),
            old(self)@.failure_reported ==> r is None,
            !old(self)@.failure_reported ==> (r matches Some(text) && text@ == camera_failure_text(
                message@,
            )),
    {
        if self.failure_reported {
            None
        } else {
            self.failure_reported = true;
            let mut text = String::from_str("Camera recording failed: ");
            text.append(message.as_str());
            proof {
                reveal_strlit("Camera recording failed: ");
            }
            Some(text)
        }
    }

    /// Cancels the camera: every later frame is ignored.
    pub fn cancel(&mut self)
        ensures
            final(self)@ == (WindowsCameraGateView { cancelled: true, ..old(self)@ }),
    {
        self.cancelled = true;
    }

    /// Decides what becomes of a frame of `width` by `height` delivered at
    /// `now_ns` (see `windows_gate_after_frame`).
    pub fn frame(&mut self, width: u32, height: u32, now_ns: u64) -> (r: WindowsFrameStep)
        ensures
            final(self)@ == windows_gate_after_frame(old(self)@, width, height, now_ns),
            old(self)@.cancelled ==> r == WindowsFrameStep::Ignore,
            !old(self)@.cancelled && !windows_warm_after(old(self)@, now_ns) ==> r
                == WindowsFrameStep::WarmingUp,
            !old(self)@.cancelled && windows_warm_after(old(self)@, now_ns) && width == old(
                self,
            )@.expected_width && height == old(self)@.expected_height ==> r
                == (WindowsFrameStep::Record { announce: !old(self)@.announced }),
            !old(self)@.cancelled && windows_warm_after(old(self)@, now_ns) && (width != old(
                self,
            )@.expected_width || height != old(self)@.expected_height) ==> match r {
                WindowsFrameStep::WrongSize { announce, report } => announce == !old(
                    self,
                )@.announced && match report {
                    Some(text) => !old(self)@.failure_reported && text@ == camera_failure_text(
                        windows_wrong_size_message(
                            width,
                            height,
                            old(self)@.expected_width,
                            old(self)@.expected_height,
                        ),
                    ),
                    None => old(self)@.failure_reported,
                },
                _ => false,
            },
    {
        if self.cancelled {
            return WindowsFrameStep::Ignore;
        }
        let first = match self.first_frame_ns {
            Some(first) => first,
            None => now_ns,
        };
        self.first_frame_ns = Some(first);
        self.frame_count = self.frame_count.saturating_add(1);
        let elapsed = now_ns.saturating_sub(first);
        if !warmup_complete(self.frame_count, elapsed) {
            return WindowsFrameStep::WarmingUp;
        }
        let announce = !self.announced;
        self.announced = true;
        if width != self.expected_width || height != self.expected_height {
            let mut message = String::from_str("The camera delivered ");
            push_decimal_to(&mut message, width);
            message.append(" x ");
            push_decimal_to(&mut message, height);
            message.append(" instead of the selected ");
            push_decimal_to(&mut message, self.expected_width);
            message.append(" x ");
            push_decimal_to(&mut message, self.expected_height);
            message.append(" format");
            proof {
                reveal_strlit("The camera delivered ");
                reveal_strlit(" x ");
                reveal_strlit(" instead of the selected ");
                reveal_strlit(" format");
            }
            let report = self.report_failure(message);
            self.cancelled = true;
            return WindowsFrameStep::WrongSize { announce, report };
        }
        WindowsFrameStep::Record { announce }
    }
}

} // verus!
