use std::collections::HashSet;

use orbit_capture::recording_state::RecordingStatus;
use orbit_capture::shortcuts::{
    action_window, non_blank_shortcut, region_selector_is_interactive, shortcut_plan,
    ShortcutAction, ShortcutResponse, ShortcutSettings, WindowLabel,
};

#[test]
fn defaults_open_the_recording_bar_take_screenshots_and_recognize_text() {
    let settings = ShortcutSettings::default();
    let assigned = settings
        .bindings
        .iter()
        .filter(|binding| binding.shortcut.is_some())
        .collect::<Vec<_>>();
    assert_eq!(assigned.len(), 3);
    assert_eq!(assigned[0].action, ShortcutAction::ToggleRecordingBar);
    assert_eq!(assigned[1].action, ShortcutAction::TakeScreenshot);
    assert_eq!(
        assigned[1].shortcut.as_deref(),
        Some("CommandOrControl+Shift+Digit8")
    );
    assert_eq!(assigned[2].action, ShortcutAction::RecognizeText);
    assert_eq!(
        assigned[2].shortcut.as_deref(),
        Some("CommandOrControl+Shift+KeyT")
    );
}

#[test]
fn each_frontend_action_goes_to_the_window_that_performs_it() {
    assert_eq!(
        action_window(ShortcutAction::StartStopRecording).map(WindowLabel::as_str),
        Some(WindowLabel::RecordingBar.as_str())
    );
    assert_eq!(
        action_window(ShortcutAction::TakeScreenshot).map(WindowLabel::as_str),
        Some(WindowLabel::RegionSelector.as_str())
    );
}

#[test]
fn taking_a_screenshot_never_reaches_the_recording_bar() {
    // The bar starts recordings, so the two must never share a window.
    assert_ne!(
        action_window(ShortcutAction::TakeScreenshot).map(WindowLabel::as_str),
        action_window(ShortcutAction::StartStopRecording).map(WindowLabel::as_str)
    );
}

#[test]
fn the_actions_rust_handles_alone_ask_no_window() {
    for action in [
        ShortcutAction::ToggleRecordingBar,
        ShortcutAction::PauseResumeRecording,
        ShortcutAction::RecognizeText,
    ] {
        assert!(action_window(action).is_none());
    }
}

#[test]
fn every_action_appears_once() {
    let settings = ShortcutSettings::default();
    let actions = settings
        .bindings
        .iter()
        .map(|binding| binding.action)
        .collect::<HashSet<_>>();
    assert_eq!(actions.len(), settings.bindings.len());
}

#[test]
fn the_region_overlay_takes_clicks_only_while_editing_outside_a_recording() {
    assert!(region_selector_is_interactive(true, true));
    assert!(!region_selector_is_interactive(false, true));
    assert!(!region_selector_is_interactive(true, false));
    assert!(!region_selector_is_interactive(false, false));
}

#[test]
fn start_stop_follows_the_recording() {
    let plan = |status| shortcut_plan(ShortcutAction::StartStopRecording, status).response;
    assert_eq!(plan(RecordingStatus::Idle), ShortcutResponse::RequestStart);
    assert_eq!(plan(RecordingStatus::Recording), ShortcutResponse::Stop);
    assert_eq!(plan(RecordingStatus::Paused), ShortcutResponse::Stop);
    assert_eq!(plan(RecordingStatus::Starting), ShortcutResponse::Cancel);
    assert_eq!(plan(RecordingStatus::Stopping), ShortcutResponse::Ignore);
}

#[test]
fn the_bar_and_screenshots_answer_only_while_idle() {
    for status in [
        RecordingStatus::Starting,
        RecordingStatus::Recording,
        RecordingStatus::Paused,
        RecordingStatus::Stopping,
    ] {
        assert_eq!(
            shortcut_plan(ShortcutAction::ToggleRecordingBar, status).response,
            ShortcutResponse::Ignore
        );
        assert_eq!(
            shortcut_plan(ShortcutAction::TakeScreenshot, status).response,
            ShortcutResponse::Ignore
        );
    }
    assert_eq!(
        shortcut_plan(ShortcutAction::ToggleRecordingBar, RecordingStatus::Idle).response,
        ShortcutResponse::ToggleRecordingUi
    );
    assert_eq!(
        shortcut_plan(ShortcutAction::TakeScreenshot, RecordingStatus::Idle).response,
        ShortcutResponse::RequestScreenshot
    );
}

#[test]
fn pausing_applies_to_a_running_or_paused_recording() {
    let plan = |status| shortcut_plan(ShortcutAction::PauseResumeRecording, status).response;
    assert_eq!(plan(RecordingStatus::Recording), ShortcutResponse::TogglePause);
    assert_eq!(plan(RecordingStatus::Paused), ShortcutResponse::TogglePause);
    assert_eq!(plan(RecordingStatus::Idle), ShortcutResponse::Ignore);
}

#[test]
fn every_shortcut_but_text_recognition_closes_text_recognition() {
    let recognize = shortcut_plan(ShortcutAction::RecognizeText, RecordingStatus::Recording);
    assert!(!recognize.dismiss_text_recognition);
    assert_eq!(recognize.response, ShortcutResponse::StartTextRecognition);
    assert!(shortcut_plan(ShortcutAction::TakeScreenshot, RecordingStatus::Idle).dismiss_text_recognition);
}

#[test]
fn a_blank_shortcut_is_no_shortcut() {
    assert_eq!(non_blank_shortcut(Some("  \t".to_owned())), None);
    assert_eq!(non_blank_shortcut(Some(String::new())), None);
    assert_eq!(non_blank_shortcut(None), None);
    assert_eq!(
        non_blank_shortcut(Some(" Alt+KeyR ".to_owned())),
        Some(" Alt+KeyR ".to_owned())
    );
}

#[test]
fn refuses_a_shortcut_another_action_uses() {
    let settings = ShortcutSettings::default();
    let ids = vec![Some(6), None, None, Some(8), Some(20)];
    assert_eq!(
        settings
            .check_binding(ShortcutAction::StartStopRecording, Some(8), &ids)
            .unwrap_err(),
        "That shortcut is already assigned to another action"
    );
    assert!(settings.check_binding(ShortcutAction::TakeScreenshot, Some(8), &ids).is_ok());
    assert!(settings.check_binding(ShortcutAction::StartStopRecording, Some(9), &ids).is_ok());
    assert!(settings.check_binding(ShortcutAction::StartStopRecording, None, &ids).is_ok());
}

#[test]
fn a_set_binding_reads_back_and_leaves_the_others() {
    let mut settings = ShortcutSettings::default();
    settings.set_binding(ShortcutAction::PauseResumeRecording, Some("Alt+KeyP".to_owned()));
    assert_eq!(
        settings.shortcut_for(ShortcutAction::PauseResumeRecording).as_deref(),
        Some("Alt+KeyP")
    );
    assert_eq!(
        settings.shortcut_for(ShortcutAction::TakeScreenshot).as_deref(),
        Some("CommandOrControl+Shift+Digit8")
    );
}

#[test]
fn stored_settings_keep_their_shortcuts_and_gain_new_actions() {
    let mut stored = ShortcutSettings::default();
    stored.bindings.retain(|binding| binding.action != ShortcutAction::RecognizeText);
    stored.set_binding(ShortcutAction::TakeScreenshot, None);
    let merged = ShortcutSettings::merged_with_stored(&stored);
    assert_eq!(merged.bindings.len(), 5);
    assert_eq!(merged.shortcut_for(ShortcutAction::TakeScreenshot), None);
    assert_eq!(merged.shortcut_for(ShortcutAction::RecognizeText), None);
    assert_eq!(
        merged.shortcut_for(ShortcutAction::ToggleRecordingBar).as_deref(),
        Some("CommandOrControl+Shift+Digit6")
    );
}
