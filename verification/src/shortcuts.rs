//! Global shortcut settings and where each shortcut's action is carried out.
use vstd::prelude::*;
use vstd::string::*;
use crate::recording_state::RecordingStatus;
use crate::text::{blank, is_blank};

verus! {

/// The app's windows, by the label each is registered under.
#[derive(Clone, Copy, Debug, PartialEq, Eq, Structural)]
pub enum WindowLabel {
    Export,
    Permissions,
    RecordingBar,
    RecordingDock,
    RecordingOptions,
    RegionSelector,
    RecordingSourceSelector,
    StandaloneListbox,
}

/// The label a window is registered under.
pub open spec fn window_label(label: WindowLabel) -> Seq<char> {
    match label {
        WindowLabel::Export => "export"@,
        WindowLabel::Permissions => "permissions"@,
        WindowLabel::RecordingBar => "recording-bar"@,
        WindowLabel::RecordingDock => "recording-dock"@,
        WindowLabel::RecordingOptions => "recording-options"@,
        WindowLabel::RegionSelector => "region-selector"@,
        WindowLabel::RecordingSourceSelector => "recording-source-selector"@,
        WindowLabel::StandaloneListbox => "standalone-listbox"@,
    }
}

impl WindowLabel {
    /// The label the window is registered under.
    pub fn as_str(self) -> (r: &'static str)
        ensures
            r@ == window_label(self),
    {
        match self {
            WindowLabel::Export => "export",
            WindowLabel::Permissions => "permissions",
            WindowLabel::RecordingBar => "recording-bar",
            WindowLabel::RecordingDock => "recording-dock",
            WindowLabel::RecordingOptions => "recording-options",
            WindowLabel::RegionSelector => "region-selector",
            WindowLabel::RecordingSourceSelector => "recording-source-selector",
            WindowLabel::StandaloneListbox => "standalone-listbox",
        }
    }
}

/// The region overlay may take clicks only while the user is editing the
/// region, and only outside a recording; otherwise clicks pass through it.
pub fn region_selector_is_interactive(is_editing: bool, is_recording_idle: bool) -> (r: bool)
    ensures
        r == (is_editing && is_recording_idle),
{
    is_editing && is_recording_idle
}

/// What a global shortcut does.
#[derive(Clone, Copy, Debug, PartialEq, Eq, Structural, Hash)]
pub enum ShortcutAction {
    ToggleRecordingBar,
    StartStopRecording,
    PauseResumeRecording,
    TakeScreenshot,
    RecognizeText,
}

/// The window that carries out an action the frontend owns; the others are
/// carried out without asking a window.
pub open spec fn action_window_spec(action: ShortcutAction) -> Option<WindowLabel> {
    match action {
        ShortcutAction::StartStopRecording => Some(WindowLabel::RecordingBar),
        ShortcutAction::TakeScreenshot => Some(WindowLabel::RegionSelector),
        _ => None,
    }
}

/// The window that carries out an action the frontend owns. Starting and
/// stopping is the recording bar's; a screenshot is taken by the region
/// overlay, so it never goes near the recording bar.
pub fn action_window(action: ShortcutAction) -> (r: Option<WindowLabel>)
    ensures
        r == action_window_spec(action),
{
    match action {
        ShortcutAction::StartStopRecording => Some(WindowLabel::RecordingBar),
        ShortcutAction::TakeScreenshot => Some(WindowLabel::RegionSelector),
        ShortcutAction::ToggleRecordingBar => None,
        ShortcutAction::PauseResumeRecording => None,
        ShortcutAction::RecognizeText => None,
    }
}

/// One action and the shortcut bound to it, if any.
pub struct ShortcutBinding {
    pub action: ShortcutAction,
    pub shortcut: Option<String>,
}

/// Every binding, in the order the settings list them.
pub struct ShortcutSettings {
    pub bindings: Vec<ShortcutBinding>,
}

/// A shortcut as contracts see it: its text, if any.
pub open spec fn shortcut_view(s: Option<String>) -> Option<Seq<char>> {
    match s {
        Some(text) => Some(text@),
        None => None,
    }
}

/// The bindings as contracts see them.
pub open spec fn bindings_view(settings: &ShortcutSettings) -> Seq<(ShortcutAction, Option<Seq<char>>)> {
    view_of_bindings(settings.bindings@)
}

/// A sequence of bindings as contracts see it.
pub open spec fn view_of_bindings(bindings: Seq<ShortcutBinding>) -> Seq<(ShortcutAction, Option<Seq<char>>)> {
    bindings.map_values(|b: ShortcutBinding| (b.action, shortcut_view(b.shortcut)))
}

/// The settings a new installation starts with: the recording bar on
/// `CommandOrControl+Shift+Digit6`, screenshots on `CommandOrControl+Shift+Digit8`,
/// text recognition on `CommandOrControl+Shift+KeyT`, and nothing for starting,
/// stopping, pausing or resuming.
pub open spec fn default_bindings() -> Seq<(ShortcutAction, Option<Seq<char>>)> {
    seq![
        (ShortcutAction::ToggleRecordingBar, Some("CommandOrControl+Shift+Digit6"@)),
        (ShortcutAction::StartStopRecording, None),
        (ShortcutAction::PauseResumeRecording, None),
        (ShortcutAction::TakeScreenshot, Some("CommandOrControl+Shift+Digit8"@)),
        (ShortcutAction::RecognizeText, Some("CommandOrControl+Shift+KeyT"@)),
    ]
}

/// The shortcut bound to `action` in `bindings`: that of the first binding for
/// it, or none.
pub open spec fn shortcut_of(
    bindings: Seq<(ShortcutAction, Option<Seq<char>>)>,
    action: ShortcutAction,
) -> Option<Seq<char>>
    decreases bindings.len(),
{
    if bindings.len() == 0 {
        None
    } else if bindings[0].0 == action {
        bindings[0].1
    } else {
        shortcut_of(bindings.drop_first(), action)
    }
}

/// A copy of a shortcut.
fn copy_shortcut(shortcut: &Option<String>) -> (r: Option<String>)
    ensures
        shortcut_view(r) == shortcut_view(*shortcut),
{
    match shortcut {
        Some(text) => Some(text.clone()),
        None => None,
    }
}

proof fn lemma_shortcut_of_skip(
    bindings: Seq<(ShortcutAction, Option<Seq<char>>)>,
    i: int,
    action: ShortcutAction,
)
    requires
        0 <= i < bindings.len(),
        forall|j: int| 0 <= j < i ==> bindings[j].0 != action,
    ensures
        shortcut_of(bindings, action) == shortcut_of(bindings.skip(i), action),
    decreases i,
{
    if i > 0 {
        assert(bindings.skip(1).skip(i - 1) =~= bindings.skip(i));
        assert forall|j: int| 0 <= j < i - 1 implies bindings.skip(1)[j].0 != action by {
            assert(bindings.skip(1)[j] == bindings[j + 1]);
        }
        lemma_shortcut_of_skip(bindings.skip(1), i - 1, action);
        assert(bindings.drop_first() == bindings.skip(1));
    } else {
        assert(bindings.skip(0) =~= bindings);
    }
}

proof fn lemma_shortcut_of_absent(
    bindings: Seq<(ShortcutAction, Option<Seq<char>>)>,
    action: ShortcutAction,
)
    requires
        forall|j: int| 0 <= j < bindings.len() ==> bindings[j].0 != action,
    ensures
        shortcut_of(bindings, action) is None,
    decreases bindings.len(),
{
    if bindings.len() > 0 {
        assert forall|j: int| 0 <= j < bindings.drop_first().len() implies bindings.drop_first()[j].0 != action by {
            assert(bindings.drop_first()[j] == bindings[j + 1]);
        }
        lemma_shortcut_of_absent(bindings.drop_first(), action);
    }
}

/// The text of a default shortcut.
fn text(literal: &str) -> (r: Option<String>)
    ensures
        shortcut_view(r) == Some(literal@),
{
    Some(String::from_str(literal))
}

impl Default for ShortcutSettings {
    /// The settings a new installation starts with (see `default_bindings`).
    fn default() -> (r: ShortcutSettings)
        ensures
            bindings_view(&r) == default_bindings(),
    {
        let mut bindings: Vec<ShortcutBinding> = Vec::new();
        bindings.push(
            ShortcutBinding {
                action: ShortcutAction::ToggleRecordingBar,
                shortcut: text("CommandOrControl+Shift+Digit6"),
            },
        );
        bindings.push(
            ShortcutBinding { action: ShortcutAction::StartStopRecording, shortcut: None },
        );
        bindings.push(
            ShortcutBinding { action: ShortcutAction::PauseResumeRecording, shortcut: None },
        );
        bindings.push(
            ShortcutBinding {
                action: ShortcutAction::TakeScreenshot,
                shortcut: text("CommandOrControl+Shift+Digit8"),
            },
        );
        bindings.push(
            ShortcutBinding {
                action: ShortcutAction::RecognizeText,
                shortcut: text("CommandOrControl+Shift+KeyT"),
            },
        );
        let r = ShortcutSettings { bindings };
        assert(bindings_view(&r) =~= default_bindings());
        r
    }
}

impl ShortcutSettings {
    /// The shortcut bound to `action`: that of its first binding, or none.
    pub fn shortcut_for(&self, action: ShortcutAction) -> (r: Option<String>)
        ensures
            shortcut_view(r) == shortcut_of(bindings_view(self), action),
    {
        let ghost view = bindings_view(self);
        let mut i: usize = 0;
        while i < self.bindings.len()
            invariant
                view == bindings_view(self),
                i <= self.bindings@.len(),
                forall|j: int| 0 <= j < i ==> view[j].0 != action,
            decreases self.bindings@.len() - i,
        {
            if self.bindings[i].action == action {
                proof {
                    lemma_shortcut_of_skip(view, i as int, action);
                }
                return copy_shortcut(&self.bindings[i].shortcut);
            }
            i = i + 1;
        }
        proof {
            lemma_shortcut_of_absent(view, action);
        }
        None
    }

    /// Binds `shortcut` to `action` in its first binding; settings without a
    /// binding for the action are left as they are.
    pub fn set_binding(&mut self, action: ShortcutAction, shortcut: Option<String>)
        ensures
            bindings_view(final(self)) == with_binding(
                bindings_view(old(self)),
                action,
                shortcut_view(shortcut),
            ),
    {
        let ghost before = bindings_view(self);
        let mut i: usize = 0;
        while i < self.bindings.len()
            invariant
                before == bindings_view(self),
                before == bindings_view(old(self)),
                i <= self.bindings@.len(),
                forall|j: int| 0 <= j < i ==> before[j].0 != action,
            decreases self.bindings@.len() - i,
        {
            if self.bindings[i].action == action {
                let ghost k = i as int;
                let ghost old_bindings = self.bindings@;
                self.bindings.set(i, ShortcutBinding { action, shortcut });
                proof {
                    let after = bindings_view(self);
                    assert(self.bindings@ =~= old_bindings.update(k, ShortcutBinding { action, shortcut }));
                    assert(after =~= before.update(k, (action, shortcut_view(shortcut))));
                    assert forall|j: int| 0 <= j < before.len() implies #[trigger] after[j] == with_binding(before, action, shortcut_view(shortcut))[j] by {
                        if j > k {
                            assert(!is_first_binding(before, j, action) || before[k].0 != action);
                        }
                    }
                    assert(after =~= with_binding(before, action, shortcut_view(shortcut)));
                }
                return;
            }
            i = i + 1;
        }
        assert forall|j: int| 0 <= j < before.len() implies !is_first_binding(before, j, action) by {}
        assert(before =~= with_binding(before, action, shortcut_view(shortcut)));
    }
}

/// `bindings` with `shortcut` bound in the first binding for `action`.
pub open spec fn with_binding(
    bindings: Seq<(ShortcutAction, Option<Seq<char>>)>,
    action: ShortcutAction,
    shortcut: Option<Seq<char>>,
) -> Seq<(ShortcutAction, Option<Seq<char>>)> {
    Seq::new(
        bindings.len(),
        |j: int|
            if is_first_binding(bindings, j, action) {
                (action, shortcut)
            } else {
                bindings[j]
            },
    )
}

/// Whether binding `j` is the first one for `action`.
pub open spec fn is_first_binding(
    bindings: Seq<(ShortcutAction, Option<Seq<char>>)>,
    j: int,
    action: ShortcutAction,
) -> bool {
    bindings[j].0 == action && forall|i: int| 0 <= i < j ==> bindings[i].0 != action
}

/// Reading a binding back after setting it gives what was set, and every other
/// action keeps its shortcut.
pub proof fn law_a_set_binding_reads_back(
    before: Seq<(ShortcutAction, Option<Seq<char>>)>,
    action: ShortcutAction,
    shortcut: Option<Seq<char>>,
    other: ShortcutAction,
)
    requires
        exists|k: int| 0 <= k < before.len() && before[k].0 == action,
        other != action,
    ensures
        shortcut_of(with_binding(before, action, shortcut), action) == shortcut,
        shortcut_of(with_binding(before, action, shortcut), other) == shortcut_of(before, other),
    decreases before.len(),
{
    let after = with_binding(before, action, shortcut);
    if before[0].0 == action {
        assert(is_first_binding(before, 0, action));
        assert forall|j: int| 0 <= j < after.drop_first().len() implies #[trigger] after.drop_first()[j] == before.drop_first()[j] by {
            assert(!is_first_binding(before, j + 1, action));
        }
        assert(after.drop_first() =~= before.drop_first());
    } else {
        let k = choose|k: int| 0 <= k < before.len() && before[k].0 == action;
        assert(before.drop_first()[k - 1].0 == action);
        assert forall|j: int| 0 <= j < after.drop_first().len() implies #[trigger] after.drop_first()[j] == with_binding(before.drop_first(), action, shortcut)[j] by {
            assert(is_first_binding(before, j + 1, action) == is_first_binding(before.drop_first(), j, action)) by {
                if is_first_binding(before.drop_first(), j, action) {
                    assert forall|i: int| 0 <= i < j + 1 implies before[i].0 != action by {
                        if i > 0 {
                            assert(before.drop_first()[i - 1] == before[i]);
                        }
                    }
                }
                if is_first_binding(before, j + 1, action) {
                    assert forall|i: int| 0 <= i < j implies before.drop_first()[i].0 != action by {
                        assert(before.drop_first()[i] == before[i + 1]);
                    }
                }
            }
        }
        assert(after.drop_first() =~= with_binding(before.drop_first(), action, shortcut));
        law_a_set_binding_reads_back(before.drop_first(), action, shortcut, other);
    }
}

/// The default settings bind each action exactly once.
pub proof fn law_every_default_action_appears_once(action: ShortcutAction)
    ensures
        exists|k: int|
            0 <= k < default_bindings().len() && default_bindings()[k].0 == action && forall|
                j: int,
            |
                0 <= j < default_bindings().len() && j != k ==> default_bindings()[j].0 != action,
{
    let d = default_bindings();
    match action {
        ShortcutAction::ToggleRecordingBar => assert(d[0].0 == action),
        ShortcutAction::StartStopRecording => assert(d[1].0 == action),
        ShortcutAction::PauseResumeRecording => assert(d[2].0 == action),
        ShortcutAction::TakeScreenshot => assert(d[3].0 == action),
        ShortcutAction::RecognizeText => assert(d[4].0 == action),
    }
}

/// The settings read back from disk: every default action, in the default
/// order, bound to whatever the stored settings bind it to (nothing, when they
/// do not mention it). Actions the stored settings know of but the app does
/// not are forgotten.
pub open spec fn merged_bindings(
    stored: Seq<(ShortcutAction, Option<Seq<char>>)>,
) -> Seq<(ShortcutAction, Option<Seq<char>>)> {
    default_bindings().map_values(
        |d: (ShortcutAction, Option<Seq<char>>)| (d.0, shortcut_of(stored, d.0)),
    )
}

impl ShortcutSettings {
    /// The settings to run with, given what was stored on disk: the defaults'
    /// actions with the stored shortcuts.
    pub fn merged_with_stored(stored: &ShortcutSettings) -> (r: ShortcutSettings)
        ensures
            bindings_view(&r) == merged_bindings(bindings_view(stored)),
    {
        let defaults = ShortcutSettings::default();
        let mut bindings: Vec<ShortcutBinding> = Vec::new();
        let mut i: usize = 0;
        while i < defaults.bindings.len()
            invariant
                bindings_view(&defaults) == default_bindings(),
                i <= defaults.bindings@.len(),
                view_of_bindings(bindings@)
                    == merged_bindings(bindings_view(stored)).take(i as int),
            decreases defaults.bindings@.len() - i,
        {
            let action = defaults.bindings[i].action;
            let shortcut = stored.shortcut_for(action);
            let ghost before = bindings@;
            bindings.push(ShortcutBinding { action, shortcut });
            proof {
                assert(bindings@ == before.push(ShortcutBinding { action, shortcut }));
                assert(bindings_view(&defaults)[i as int].0 == action);
                assert(default_bindings()[i as int].0 == action);
                let merged = merged_bindings(bindings_view(stored));
                assert(merged[i as int] == (action, shortcut_of(bindings_view(stored), action)));
                assert(view_of_bindings(before).len() == before.len());
                assert(before.len() == i);
                assert(bindings@[i as int] == ShortcutBinding { action, shortcut });
                let mapped = view_of_bindings(bindings@);
                assert(mapped.len() == i + 1);
                let mapped_before = view_of_bindings(before);
                assert forall|j: int| 0 <= j < i implies mapped[j] == merged[j] by {
                    assert(mapped[j] == mapped_before[j]);
                    assert(mapped_before[j] == merged.take(i as int)[j]);
                }
                assert(mapped[i as int] == (action, shortcut_view(shortcut)));
                assert(view_of_bindings(bindings@)
                    =~= merged_bindings(bindings_view(stored)).take(i + 1));
            }
            i = i + 1;
        }
        let r = ShortcutSettings { bindings };
        proof {
            assert(merged_bindings(bindings_view(stored)).take(5) =~= merged_bindings(bindings_view(stored)));
        }
        r
    }

    /// Whether another action already uses the shortcut whose identity is
    /// `requested`. `ids` holds, binding by binding, the identity of each bound
    /// shortcut, or nothing for an unbound or unreadable one.
    pub fn assigned_elsewhere(&self, action: ShortcutAction, requested: u32, ids: &Vec<Option<u32>>) -> (r: bool)
        requires
            ids@.len() == self.bindings@.len(),
        ensures
            r == exists|j: int|
                0 <= j < ids@.len() && self.bindings@[j].action != action && #[trigger] ids@[j]
                    == Some(requested),
    {
        let mut i: usize = 0;
        while i < ids.len()
            invariant
                ids@.len() == self.bindings@.len(),
                i <= ids@.len(),
                forall|j: int|
                    0 <= j < i ==> !(self.bindings@[j].action != action && #[trigger] ids@[j] == Some(
                        requested,
                    )),
            decreases ids@.len() - i,
        {
            if self.bindings[i].action != action && ids[i] == Some(requested) {
                return true;
            }
            i = i + 1;
        }
        false
    }
}

/// What pressing a shortcut should lead to, given where the recording is.
#[derive(Clone, Copy, Debug, PartialEq, Eq, Structural)]
pub enum ShortcutResponse {
    /// Show the recording controls, or hide them when they are showing; a
    /// pending export workspace, if any, is focused instead.
    ToggleRecordingUi,
    /// Pause a running recording, or resume a paused one.
    TogglePause,
    /// Ask the recording bar to start; a pending export workspace, if any, is
    /// focused instead.
    RequestStart,
    /// Stop the recording.
    Stop,
    /// Abandon the recording that is still starting.
    Cancel,
    /// Ask the region overlay for a screenshot, unless an export workspace
    /// holds a screenshot that would be lost.
    RequestScreenshot,
    /// Start recognising text on screen.
    StartTextRecognition,
    /// Nothing happens.
    Ignore,
}

/// What a shortcut does: whether any text recognition on screen is closed
/// first, and what follows.
#[derive(Clone, Copy, Debug, PartialEq, Eq, Structural)]
pub struct ShortcutPlan {
    pub dismiss_text_recognition: bool,
    pub response: ShortcutResponse,
}

/// What an action leads to at each recording status. The recording bar is
/// toggled and screenshots are taken only while idle; pausing applies to a
/// running or paused recording; start/stop starts when idle, stops a running
/// or paused recording, cancels one that is starting and does nothing while
/// stopping. Every action but text recognition closes text recognition first.
pub open spec fn shortcut_plan_spec(action: ShortcutAction, status: RecordingStatus) -> ShortcutPlan {
    let running = status == RecordingStatus::Recording || status == RecordingStatus::Paused;
    let idle = status == RecordingStatus::Idle;
    ShortcutPlan {
        dismiss_text_recognition: action != ShortcutAction::RecognizeText,
        response: match action {
            ShortcutAction::ToggleRecordingBar => if idle {
                ShortcutResponse::ToggleRecordingUi
            } else {
                ShortcutResponse::Ignore
            },
            ShortcutAction::PauseResumeRecording => if running {
                ShortcutResponse::TogglePause
            } else {
                ShortcutResponse::Ignore
            },
            ShortcutAction::StartStopRecording => if idle {
                ShortcutResponse::RequestStart
            } else if running {
                ShortcutResponse::Stop
            } else if status == RecordingStatus::Starting {
                ShortcutResponse::Cancel
            } else {
                ShortcutResponse::Ignore
            },
            ShortcutAction::TakeScreenshot => if idle {
                ShortcutResponse::RequestScreenshot
            } else {
                ShortcutResponse::Ignore
            },
            ShortcutAction::RecognizeText => ShortcutResponse::StartTextRecognition,
        },
    }
}

/// What pressing the shortcut for `action` does while the recording is at
/// `status` (see `shortcut_plan_spec`).
pub fn shortcut_plan(action: ShortcutAction, status: RecordingStatus) -> (r: ShortcutPlan)
    ensures
        r == shortcut_plan_spec(action, status),
{
    let running = status == RecordingStatus::Recording || status == RecordingStatus::Paused;
    let idle = status == RecordingStatus::Idle;
    let response = match action {
        ShortcutAction::ToggleRecordingBar => if idle {
            ShortcutResponse::ToggleRecordingUi
        } else {
            ShortcutResponse::Ignore
        },
        ShortcutAction::PauseResumeRecording => if running {
            ShortcutResponse::TogglePause
        } else {
            ShortcutResponse::Ignore
        },
        ShortcutAction::StartStopRecording => if idle {
            ShortcutResponse::RequestStart
        } else if running {
            ShortcutResponse::Stop
        } else if status == RecordingStatus::Starting {
            ShortcutResponse::Cancel
        } else {
            ShortcutResponse::Ignore
        },
        ShortcutAction::TakeScreenshot => if idle {
            ShortcutResponse::RequestScreenshot
        } else {
            ShortcutResponse::Ignore
        },
        ShortcutAction::RecognizeText => ShortcutResponse::StartTextRecognition,
    };
    ShortcutPlan { dismiss_text_recognition: action != ShortcutAction::RecognizeText, response }
}

/// A shortcut as stored: a blank one counts as no shortcut.
pub fn non_blank_shortcut(shortcut: Option<String>) -> (r: Option<String>)
    ensures
        match shortcut {
            Some(text) => if blank(text@) {
                r is None
            } else {
                r matches Some(kept) && kept@ == text@
            },
            None => r is None,
        },
{
    match shortcut {
        None => None,
        Some(text) => {
            if is_blank(text.as_str()) {
                None
            } else {
                Some(text)
            }
        },
    }
}

/// The refusal given for a shortcut that another action already uses.
pub open spec fn conflict_message() -> Seq<char> {
    "That shortcut is already assigned to another action"@
}

impl ShortcutSettings {
    /// Whether `action` may be bound to the shortcut whose identity is
    /// `requested` (nothing, for clearing the binding): it may not when another
    /// action already uses that shortcut. `ids` holds, binding by binding, the
    /// identity of each bound shortcut, or nothing for an unbound or unreadable
    /// one.
    pub fn check_binding(&self, action: ShortcutAction, requested: Option<u32>, ids: &Vec<Option<u32>>) -> (r: Result<(), String>)
        requires
            ids@.len() == self.bindings@.len(),
        ensures
            r is Err <==> (requested matches Some(id) && exists|j: int|
                0 <= j < ids@.len() && self.bindings@[j].action != action && #[trigger] ids@[j]
                    == Some(id)),
            r matches Err(message) ==> message@ == conflict_message(),
    {
        match requested {
            Some(id) => {
                if self.assigned_elsewhere(action, id, ids) {
                    Err(String::from_str("That shortcut is already assigned to another action"))
                } else {
                    Ok(())
                }
            },
            None => Ok(()),
        }
    }
}

} // verus!
