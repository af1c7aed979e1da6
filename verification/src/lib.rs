//! The decision-making core of a screen recorder: the movie timeline, the
//! recording state machine, clocks, geometry, image sampling and naming rules.
//! Everything here is plain data in and plain data out, so that the desktop
//! shell only has to read devices, call these functions and act on the answer.

mod arith;
pub mod text;
pub mod calendar;
pub mod cursor;
pub mod timeline;
pub mod recording_state;
pub mod encoding;
pub mod clocks;
pub mod camera_modes;
pub mod names;
pub mod colour;
pub mod ocr;
pub mod shortcuts;
pub mod geometry;
pub mod sources;
pub mod devices;
pub mod camera_frames;
pub mod startup;
pub mod screenshots;
pub mod frozen;
pub mod monitor;
pub mod audio_packets;
pub mod capture_writer;
pub mod media_settings;
pub mod window_styles;
