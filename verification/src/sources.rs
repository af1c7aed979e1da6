//! What can be recorded and from where: windows, applications and the cursor
//! shapes a recording notes down.
use vstd::prelude::*;

use crate::devices::{lowercase, to_lowercase};
use crate::text::{blank, is_blank, is_trimmed_range, trim_white_space};
use vstd::string::*;

verus! {

/// The shapes of cursor a recording distinguishes.
#[derive(Clone, Copy, Debug, PartialEq, Eq, Structural)]
pub enum CursorStyle {
    Arrow,
    Crosshair,
    PointingHand,
    IBeam,
    NotAllowed,
    ResizeHorizontal,
    ResizeVertical,
    Custom,
}

/// The system's standard cursors, by handle.
#[derive(Clone, Copy, Debug, PartialEq, Eq, Structural)]
pub struct StandardCursors {
    pub arrow: usize,
    pub crosshair: usize,
    pub hand: usize,
    pub ibeam: usize,
    pub not_allowed: usize,
    pub resize_horizontal: usize,
    pub resize_vertical: usize,
}

/// The style of the cursor whose handle is `cursor`: the first standard cursor
/// it is, checked in declaration order, or a custom one.
pub open spec fn cursor_style_spec(cursors: StandardCursors, cursor: usize) -> CursorStyle {
    if cursor == cursors.arrow {
        CursorStyle::Arrow
    } else if cursor == cursors.crosshair {
        CursorStyle::Crosshair
    } else if cursor == cursors.hand {
        CursorStyle::PointingHand
    } else if cursor == cursors.ibeam {
        CursorStyle::IBeam
    } else if cursor == cursors.not_allowed {
        CursorStyle::NotAllowed
    } else if cursor == cursors.resize_horizontal {
        CursorStyle::ResizeHorizontal
    } else if cursor == cursors.resize_vertical {
        CursorStyle::ResizeVertical
    } else {
        CursorStyle::Custom
    }
}

impl StandardCursors {
    /// Which standard cursor the handle `cursor` is, if any.
    pub fn style(self, cursor: usize) -> (r: CursorStyle)
        ensures
            r == cursor_style_spec(self, cursor),
    {
        if cursor == self.arrow {
            CursorStyle::Arrow
        } else if cursor == self.crosshair {
            CursorStyle::Crosshair
        } else if cursor == self.hand {
            CursorStyle::PointingHand
        } else if cursor == self.ibeam {
            CursorStyle::IBeam
        } else if cursor == self.not_allowed {
            CursorStyle::NotAllowed
        } else if cursor == self.resize_horizontal {
            CursorStyle::ResizeHorizontal
        } else if cursor == self.resize_vertical {
            CursorStyle::ResizeVertical
        } else {
            CursorStyle::Custom
        }
    }
}

/// One entry of the window server's window list: its layer and its number, as
/// far as they could be read.
#[derive(Clone, Copy, Debug, PartialEq, Eq, Structural)]
pub struct WindowListEntry {
    pub layer: Option<i32>,
    pub number: Option<i32>,
}

/// The ids of the ordinary windows in a window list: entries on layer zero
/// whose number could be read, the number taken as an unsigned id.
pub open spec fn selectable_ids(entries: Seq<WindowListEntry>) -> Seq<u32>
    decreases entries.len(),
{
    if entries.len() == 0 {
        Seq::empty()
    } else {
        let rest = selectable_ids(entries.drop_last());
        let e = entries.last();
        if e.layer == Some(0i32) && e.number is Some {
            rest.push(e.number.unwrap() as u32)
        } else {
            rest
        }
    }
}

/// The windows a user may pick to record: the ordinary (layer zero) windows of
/// the window list, in list order. No window list, no answer.
pub fn selectable_window_ids(entries: Option<&Vec<WindowListEntry>>) -> (r: Option<Vec<u32>>)
    ensures
        match entries {
            Some(list) => r matches Some(ids) && ids@ == selectable_ids(list@),
            None => r is None,
        },
{
    match entries {
        None => None,
        Some(list) => {
            let mut ids: Vec<u32> = Vec::new();
            let mut i: usize = 0;
            while i < list.len()
                invariant
                    i <= list@.len(),
                    ids@ == selectable_ids(list@.take(i as int)),
                decreases list@.len() - i,
            {
                let entry = list[i];
                proof {
                    assert(list@.take(i + 1).drop_last() =~= list@.take(i as int));
                    assert(list@.take(i + 1).last() == entry);
                }
                match (entry.layer, entry.number) {
                    (Some(layer), Some(number)) => {
                        if layer == 0 {
                            ids.push(number as u32);
                        }
                    },
                    _ => {},
                }
                i = i + 1;
            }
            proof {
                assert(list@.take(list@.len() as int) =~= list@);
            }
            Some(ids)
        },
    }
}

/// An application that can be recorded on its own.
pub struct AudioApplication {
    pub id: String,
    pub label: String,
    pub pid: u32,
}

/// A source snapshot taken when Record is pressed: the applications whose
/// sound is recorded (by bundle identifier) and the processes behind them.
pub struct SystemAudioSelection {
    pub application_ids: Vec<String>,
    pub enabled: bool,
    pub process_ids: Vec<u32>,
}

impl SystemAudioSelection {
    /// No system audio.
    pub fn disabled() -> (r: SystemAudioSelection)
        ensures
            r.application_ids@.len() == 0,
            !r.enabled,
            r.process_ids@.len() == 0,
    {
        SystemAudioSelection { application_ids: Vec::new(), enabled: false, process_ids: Vec::new() }
    }
}

/// What identifies an application across its windows: the path of the
/// executable behind its process, in lower case (paths are compared without
/// regard to case). A process whose executable could not be read has none.
pub fn app_identity(executable_path: Option<&str>) -> (r: Option<String>)
    ensures
        match executable_path {
            Some(path) => r matches Some(identity) && identity@ == lowercase(path@),
            None => r is None,
        },
{
    match executable_path {
        Some(path) => Some(to_lowercase(path)),
        None => None,
    }
}

/// The application an application offering sound is listed as, or none: an
/// application must be an ordinary one (with a Dock icon), other than this
/// app itself, with a process id, an identifier and a name that are not
/// blank. Its name is listed without leading and trailing white space.
pub fn audio_application(
    process_id: i32,
    is_regular: bool,
    current_pid: u32,
    id: String,
    label: String,
) -> (r: Option<AudioApplication>)
    ensures
        match r {
            Some(app) => {
                &&& process_id >= 0
                &&& is_regular
                &&& process_id != current_pid
                &&& !blank(id@)
                &&& !blank(label@)
                &&& app.pid == process_id
                &&& app.id@ == id@
                &&& exists|from: int, to: int|
                    #[trigger] is_trimmed_range(label@, from, to) && app.label@ == label@.subrange(
                        from,
                        to,
                    )
            },
            None => process_id < 0 || !is_regular || process_id == current_pid || blank(id@)
                || blank(label@),
        },
{
    if process_id < 0 || !is_regular {
        return None;
    }
    let pid = process_id as u32;
    if pid == current_pid || is_blank(id.as_str()) || is_blank(label.as_str()) {
        return None;
    }
    let trimmed = trim_white_space(label.as_str());
    Some(AudioApplication { id, label: trimmed, pid })
}

} // verus!
