//! How a recording starts: what the primary video is taken from and at what
//! size, which encoder each video goes to, what a camera does alongside the
//! screen, and which system audio streams are opened. Everything is decided
//! here from what the shell has resolved; the shell then opens the devices.
use vstd::prelude::*;
use vstd::string::*;
use crate::encoding::even;
use crate::sources::SystemAudioSelection;

verus! {

/// What a recording is of. A region's rectangle is resolved against its
/// monitor by the shell; here only what decides the start matters.
#[derive(Clone, Copy, Debug, PartialEq, Eq, Structural)]
pub enum PrimaryCaptureSource {
    Screen { fps: u32, monitor_id: u32, show_cursor: bool },
    Region { fps: u32, monitor_id: u32, show_cursor: bool },
    Window { fps: u32, show_cursor: bool, window_id: u32 },
    Camera,
    Audio,
}

/// The size and frame rate of a video.
#[derive(Clone, Copy, Debug, PartialEq, Eq, Structural)]
pub struct VideoFormat {
    pub width: u32,
    pub height: u32,
    pub fps: u32,
}

/// The primary video as resolved from the screen: its format, and whether it
/// shows a single window rather than a display.
#[derive(Clone, Copy, Debug, PartialEq, Eq, Structural)]
pub struct ScreenVideo {
    pub format: VideoFormat,
    pub is_window: bool,
}

/// The codec a video is written with.
#[derive(Clone, Copy, Debug, PartialEq, Eq, Structural)]
pub enum VideoEncoder {
    H264,
    Hevc,
}

/// Where a video's frames come from.
#[derive(Clone, Copy, Debug, PartialEq, Eq, Structural)]
pub enum VideoSource {
    Screen,
    Camera,
}

/// The primary video of a recording.
#[derive(Clone, Copy, Debug, PartialEq, Eq, Structural)]
pub struct VideoPlan {
    pub format: VideoFormat,
    pub encoder: VideoEncoder,
    pub source: VideoSource,
}

/// What a selected camera does in a recording.
#[derive(Clone, Copy, Debug, PartialEq, Eq, Structural)]
pub enum CameraRole {
    /// No camera is recorded.
    Absent,
    /// The camera is the recording's primary video.
    Primary,
    /// The camera is written to a file of its own, next to the screen, with
    /// the encoder given.
    Secondary { encoder: VideoEncoder },
}

/// Which streams carry system audio.
#[derive(Clone, Copy, Debug, PartialEq, Eq, Structural)]
pub struct SystemAudioPlan {
    /// A stream of its own captures all system audio.
    pub all_stream: bool,
    /// A stream captures the selected applications' audio.
    pub selected_stream: bool,
    /// The primary video's display stream captures all system audio itself.
    pub video_captures_all: bool,
}

/// Whether the primary source is the camera.
pub open spec fn is_camera(primary: PrimaryCaptureSource) -> bool {
    primary matches PrimaryCaptureSource::Camera
}

pub open spec fn no_camera_message() -> Seq<char> {
    "No camera is selected to record"@
}

pub open spec fn no_video_message() -> Seq<char> {
    "No video source is available for recording"@
}

pub open spec fn no_size_message() -> Seq<char> {
    "The selected video source has no usable size"@
}

pub open spec fn no_camera_path_message() -> Seq<char> {
    "The camera has nowhere to record"@
}

pub open spec fn no_audio_display_message() -> Seq<char> {
    "No monitor is available for audio capture"@
}

/// A recording of the camera needs a camera.
pub fn require_camera(primary: PrimaryCaptureSource, camera: Option<VideoFormat>) -> (r: Result<
    (),
    String,
>)
    ensures
        r is Err <==> (is_camera(primary) && camera is None),
        r matches Err(m) ==> m@ == no_camera_message(),
{
    match (primary, camera) {
        (PrimaryCaptureSource::Camera, None) => Err(
            String::from_str("No camera is selected to record"),
        ),
        _ => Ok(()),
    }
}

/// Whether the screen's shareable content has to be fetched: for any video
/// taken from the screen, and for system audio.
pub fn needs_shareable_content(primary: PrimaryCaptureSource, system_audio_enabled: bool) -> (r:
    bool)
    ensures
        r == (!is_camera(primary) || system_audio_enabled),
{
    match primary {
        PrimaryCaptureSource::Camera => system_audio_enabled,
        _ => true,
    }
}

/// The primary video: the camera's format when the camera is primary,
/// otherwise that of the video resolved from the screen. With a camera
/// selected beside the screen, both videos are written with HEVC, because two
/// concurrent hardware encoders of different codecs starve each other;
/// otherwise H.264.
pub open spec fn video_plan_spec(
    primary: PrimaryCaptureSource,
    camera: Option<VideoFormat>,
    video: Option<ScreenVideo>,
) -> Result<VideoPlan, Seq<char>> {
    if is_camera(primary) {
        match camera {
            None => Err(no_camera_message()),
            Some(format) => if format.width == 0 || format.height == 0 {
                Err(no_size_message())
            } else {
                Ok(VideoPlan { format, encoder: VideoEncoder::H264, source: VideoSource::Camera })
            },
        }
    } else {
        match video {
            None => Err(no_video_message()),
            Some(v) => if v.format.width == 0 || v.format.height == 0 {
                Err(no_size_message())
            } else {
                Ok(
                    VideoPlan {
                        format: v.format,
                        encoder: if camera is Some {
                            VideoEncoder::Hevc
                        } else {
                            VideoEncoder::H264
                        },
                        source: VideoSource::Screen,
                    },
                )
            },
        }
    }
}

/// The primary video of a recording, from the primary source, the selected
/// camera's format (if any) and the video resolved from the screen (if any).
pub fn plan_video(
    primary: PrimaryCaptureSource,
    camera: Option<VideoFormat>,
    video: Option<ScreenVideo>,
) -> (r: Result<VideoPlan, String>)
    ensures
        match video_plan_spec(primary, camera, video) {
            Ok(plan) => r == Ok::<VideoPlan, String>(plan),
            Err(message) => r matches Err(m) && m@ == message,
        },
{
    if let PrimaryCaptureSource::Camera = primary {
        match camera {
            None => Err(String::from_str("No camera is selected to record")),
            Some(format) => {
                if format.width == 0 || format.height == 0 {
                    Err(String::from_str("The selected video source has no usable size"))
                } else {
                    Ok(
                        VideoPlan {
                            format,
                            encoder: VideoEncoder::H264,
                            source: VideoSource::Camera,
                        },
                    )
                }
            },
        }
    } else {
        match video {
            None => Err(String::from_str("No video source is available for recording")),
            Some(v) => {
                if v.format.width == 0 || v.format.height == 0 {
                    Err(String::from_str("The selected video source has no usable size"))
                } else {
                    let encoder = if camera.is_some() {
                        VideoEncoder::Hevc
                    } else {
                        VideoEncoder::H264
                    };
                    Ok(VideoPlan { format: v.format, encoder, source: VideoSource::Screen })
                }
            },
        }
    }
}

/// What the selected camera does: nothing without one, the primary video when
/// the camera is primary, and otherwise a second recording, in HEVC, which
/// needs a file to go to.
pub open spec fn camera_role_spec(
    primary: PrimaryCaptureSource,
    has_camera: bool,
    has_camera_path: bool,
) -> Result<CameraRole, Seq<char>> {
    if !has_camera {
        Ok(CameraRole::Absent)
    } else if is_camera(primary) {
        Ok(CameraRole::Primary)
    } else if !has_camera_path {
        Err(no_camera_path_message())
    } else {
        Ok(CameraRole::Secondary { encoder: VideoEncoder::Hevc })
    }
}

/// What the selected camera does in the recording (see `camera_role_spec`).
pub fn camera_role(primary: PrimaryCaptureSource, has_camera: bool, has_camera_path: bool) -> (r:
    Result<CameraRole, String>)
    ensures
        match camera_role_spec(primary, has_camera, has_camera_path) {
            Ok(role) => r == Ok::<CameraRole, String>(role),
            Err(message) => r matches Err(m) && m@ == message,
        },
{
    if !has_camera {
        Ok(CameraRole::Absent)
    } else if let PrimaryCaptureSource::Camera = primary {
        Ok(CameraRole::Primary)
    } else if !has_camera_path {
        Err(String::from_str("The camera has nowhere to record"))
    } else {
        Ok(CameraRole::Secondary { encoder: VideoEncoder::Hevc })
    }
}

/// The streams that carry system audio. Selected applications are captured
/// by a stream of their own. All system audio is captured by the display
/// stream of a primary video that shows a display, and otherwise by a stream
/// of its own. System audio needs a display to be captured from.
pub open spec fn system_audio_plan_spec(
    enabled: bool,
    has_applications: bool,
    video_is_display: bool,
    has_display: bool,
) -> Result<SystemAudioPlan, Seq<char>> {
    let selected = enabled && has_applications;
    let all = enabled && !selected;
    let video_captures_all = all && video_is_display;
    if !enabled {
        Ok(SystemAudioPlan { all_stream: false, selected_stream: false, video_captures_all: false })
    } else if !has_display {
        Err(no_audio_display_message())
    } else {
        Ok(
            SystemAudioPlan {
                all_stream: all && !video_captures_all,
                selected_stream: selected,
                video_captures_all,
            },
        )
    }
}

/// Whether a primary video shows a display rather than a single window.
pub open spec fn shows_display(video: Option<ScreenVideo>) -> bool {
    video matches Some(v) && !v.is_window
}

/// The streams that carry the selected system audio, given the primary video
/// resolved from the screen (if any) and whether the screen has a display.
pub fn plan_system_audio(
    selection: &SystemAudioSelection,
    video: Option<ScreenVideo>,
    has_display: bool,
) -> (r: Result<SystemAudioPlan, String>)
    ensures
        match system_audio_plan_spec(
            selection.enabled,
            selection.application_ids@.len() > 0,
            shows_display(video),
            has_display,
        ) {
            Ok(plan) => r == Ok::<SystemAudioPlan, String>(plan),
            Err(message) => r matches Err(m) && m@ == message,
        },
{
    let selected = selection.enabled && selection.application_ids.len() > 0;
    let all = selection.enabled && !selected;
    let video_is_display = match video {
        Some(v) => !v.is_window,
        None => false,
    };
    let video_captures_all = all && video_is_display;
    if !selection.enabled {
        Ok(SystemAudioPlan { all_stream: false, selected_stream: false, video_captures_all: false })
    } else if !has_display {
        Err(String::from_str("No monitor is available for audio capture"))
    } else {
        Ok(
            SystemAudioPlan {
                all_stream: all && !video_captures_all,
                selected_stream: selected,
                video_captures_all,
            },
        )
    }
}

/// How a recording starts where only full-screen and audio-only recording are
/// available.
#[derive(Clone, Copy, Debug, PartialEq, Eq, Structural)]
pub enum LimitedStart {
    /// Record audio alone.
    AudioOnly,
    /// Record a whole monitor.
    Screen { fps: u32, monitor_id: u32, show_cursor: bool },
}

pub open spec fn no_windows_camera_message() -> Seq<char> {
    "Camera recording is not yet available on Windows"@
}

pub open spec fn no_audio_source_message() -> Seq<char> {
    "Select a microphone or system audio source"@
}

pub open spec fn full_screen_only_message() -> Seq<char> {
    "Only full-screen recording is available on Windows right now"@
}

/// Where cameras are not recorded: no camera may be selected; an audio
/// recording needs a microphone or system audio; the only video recorded is a
/// whole monitor.
pub open spec fn limited_start_spec(
    primary: PrimaryCaptureSource,
    has_camera: bool,
    has_camera_path: bool,
    has_microphone: bool,
    system_audio_enabled: bool,
) -> Result<LimitedStart, Seq<char>> {
    if has_camera || has_camera_path {
        Err(no_windows_camera_message())
    } else {
        match primary {
            PrimaryCaptureSource::Audio => if !has_microphone && !system_audio_enabled {
                Err(no_audio_source_message())
            } else {
                Ok(LimitedStart::AudioOnly)
            },
            PrimaryCaptureSource::Screen { fps, monitor_id, show_cursor } => Ok(
                LimitedStart::Screen { fps, monitor_id, show_cursor },
            ),
            _ => Err(full_screen_only_message()),
        }
    }
}

/// How a recording starts on a platform that records only whole monitors and
/// audio (see `limited_start_spec`).
pub fn plan_limited_start(
    primary: PrimaryCaptureSource,
    has_camera: bool,
    has_camera_path: bool,
    has_microphone: bool,
    system_audio_enabled: bool,
) -> (r: Result<LimitedStart, String>)
    ensures
        match limited_start_spec(
            primary,
            has_camera,
            has_camera_path,
            has_microphone,
            system_audio_enabled,
        ) {
            Ok(start) => r == Ok::<LimitedStart, String>(start),
            Err(message) => r matches Err(m) && m@ == message,
        },
{
    if has_camera || has_camera_path {
        return Err(String::from_str("Camera recording is not yet available on Windows"));
    }
    match primary {
        PrimaryCaptureSource::Audio => {
            if !has_microphone && !system_audio_enabled {
                Err(String::from_str("Select a microphone or system audio source"))
            } else {
                Ok(LimitedStart::AudioOnly)
            }
        },
        PrimaryCaptureSource::Screen { fps, monitor_id, show_cursor } => Ok(
            LimitedStart::Screen { fps, monitor_id, show_cursor },
        ),
        _ => Err(String::from_str("Only full-screen recording is available on Windows right now")),
    }
}

pub open spec fn no_recordable_area_message() -> Seq<char> {
    "The selected monitor has no recordable area"@
}

/// The size a monitor is recorded at: each edge made even, and refused when
/// either edge is then below two pixels.
pub fn recordable_area(width: u32, height: u32) -> (r: Result<(u32, u32), String>)
    ensures
        ({
            let w = width - width % 2;
            let h = height - height % 2;
            if w < 2 || h < 2 {
                r matches Err(m) && m@ == no_recordable_area_message()
            } else {
                r == Ok::<(u32, u32), String>((w as u32, h as u32))
            }
        }),
{
    let w = even(width);
    let h = even(height);
    if w < 2 || h < 2 {
        Err(String::from_str("The selected monitor has no recordable area"))
    } else {
        Ok((w, h))
    }
}

/// A camera recorded beside the screen never shares the H.264 encoder with
/// it: whenever a camera is written to a file of its own, the screen's video
/// and the camera's are both HEVC.
pub proof fn law_concurrent_videos_share_a_codec(
    primary: PrimaryCaptureSource,
    camera: VideoFormat,
    has_camera_path: bool,
    video: Option<ScreenVideo>,
)
    ensures
        camera_role_spec(primary, true, has_camera_path) matches Ok(
            CameraRole::Secondary { encoder },
        ) ==> (encoder == VideoEncoder::Hevc && (video_plan_spec(primary, Some(camera), video)
            matches Ok(plan) ==> plan.encoder == VideoEncoder::Hevc)),
{
}

/// All system audio is captured once: never by both the display stream and a
/// stream of its own, and never alongside a stream for selected applications.
pub proof fn law_system_audio_is_captured_once(
    enabled: bool,
    has_applications: bool,
    video_is_display: bool,
    has_display: bool,
)
    ensures
        system_audio_plan_spec(enabled, has_applications, video_is_display, has_display) matches Ok(
            plan,
        ) ==> {
            &&& !(plan.all_stream && plan.video_captures_all)
            &&& plan.selected_stream ==> !plan.all_stream && !plan.video_captures_all
            &&& enabled ==> (plan.all_stream || plan.selected_stream || plan.video_captures_all)
            &&& !enabled ==> !(plan.all_stream || plan.selected_stream || plan.video_captures_all)
        },
{
}

} // verus!
