# orbit_capture

The decision-making core of a desktop screen recorder, written in Verus: the
library's public functions carry contracts that Verus proves (a few small
helpers carry none), and the laws the recorder lives by are stated as proof
functions beside the code they govern. Three calls the library does not
prove — chrono's date formatter, `str::to_lowercase` and `String::push` —
stand behind trusted wrappers whose contracts say what their source or
documentation shows.

## Layout

- `src/timeline.rs` — the movie timeline: frames rebased to the first one,
  pauses taken out, strictly increasing timestamps, and where a movie ends.
- `src/capture_writer.rs` — a writer thread's decisions: frames held while
  paused, audio prerolls, refusal streaks, the session's end.
- `src/recording_state.rs` — the recording state machine every window observes.
- `src/startup.rs` — how a recording starts: primary video, encoders, camera
  role and system audio streams.
- `src/clocks.rs`, `src/audio_packets.rs`, `src/media_settings.rs` — microphone
  trimming, audio packet placement and padding, audio-only and cursor clocks,
  encoder numbers and media times.
- `src/encoding.rs`, `src/camera_frames.rs`, `src/ocr.rs`, `src/screenshots.rs`
  — pixels: bitrates, posters from NV12 frames, camera frames, recognition
  borders, captured stills and crops.
- `src/frozen.rs`, `src/monitor.rs` — monitors frozen for the ruler and text
  recognition, and the signals sent to the recording dock.
- `src/camera_modes.rs`, `src/devices.rs`, `src/sources.rs`, `src/geometry.rs`,
  `src/window_styles.rs`, `src/cursor.rs` — device and window listings,
  placement and styles, and the cursor events a recording notes down.
- `src/shortcuts.rs`, `src/names.rs`, `src/calendar.rs`, `src/colour.rs`,
  `src/text.rs` — settings, file names (formatted by chrono), colours and text
  clean-up.
- `app/` — the shell around the library: the settings file, the clock, JSON
  for the windows, and the floating-point measurements the library leaves out.
- `tests/` — tests of the library on concrete values.
