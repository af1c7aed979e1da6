//! Monitors frozen for the ruler and for text recognition. Each freeze is a
//! generation of its own: capturing the monitors takes time, and a capture
//! that finishes after the user has cancelled, or after a newer freeze began,
//! must not take the place of what the user now sees.
use vstd::prelude::*;
use vstd::string::*;
use crate::screenshots::{CapturedImage, PixelRect, crop, rect_fits};

verus! {

/// One frozen monitor: its id, what the shell keeps beside its pixels (such
/// as the monitor's scale), and its pixels.
pub struct FrozenMonitor<D> {
    pub id: u32,
    pub detail: D,
    pub image: CapturedImage,
}

/// The frozen monitors of the current freeze, and the region of them the
/// user selected, if any.
pub struct FrozenSession<D> {
    generation: u64,
    monitors: Vec<FrozenMonitor<D>>,
    selected: Option<CapturedImage>,
}

/// A session as contracts see it.
pub struct FrozenState<D> {
    pub generation: u64,
    pub monitors: Seq<FrozenMonitor<D>>,
    pub selected: Option<CapturedImage>,
}

impl<D> View for FrozenSession<D> {
    type V = FrozenState<D>;

    closed spec fn view(&self) -> FrozenState<D> {
        FrozenState { generation: self.generation, monitors: self.monitors@, selected: self.selected }
    }
}

/// The generation after `g`, wrapping round after the last.
pub open spec fn next_generation(g: u64) -> u64 {
    if g == u64::MAX {
        0
    } else {
        (g + 1) as u64
    }
}

/// A session after a freeze begins or is cancelled: a new generation, with
/// nothing frozen and nothing selected.
pub open spec fn restarted<D>(s: FrozenState<D>) -> FrozenState<D> {
    FrozenState { generation: next_generation(s.generation), monitors: Seq::empty(), selected: None }
}

/// A session after the capture of generation `g` delivers `monitors`: they
/// replace the frozen monitors if `g` is still the session's generation, and
/// are dropped otherwise.
pub open spec fn installed<D>(s: FrozenState<D>, g: u64, monitors: Seq<FrozenMonitor<D>>) -> FrozenState<D> {
    if g == s.generation {
        FrozenState { monitors, ..s }
    } else {
        s
    }
}

/// The frozen monitor with `id`: the last one delivered under that id.
pub open spec fn frozen_monitor<D>(monitors: Seq<FrozenMonitor<D>>, id: u32) -> Option<
    FrozenMonitor<D>,
>
    decreases monitors.len(),
{
    if monitors.len() == 0 {
        None
    } else if monitors.last().id == id {
        Some(monitors.last())
    } else {
        frozen_monitor(monitors.drop_last(), id)
    }
}

/// Where in `monitors` the frozen monitor with `id` stands.
pub open spec fn frozen_index<D>(monitors: Seq<FrozenMonitor<D>>, id: u32) -> int
    decreases monitors.len(),
{
    if monitors.len() == 0 {
        -1
    } else if monitors.last().id == id {
        monitors.len() - 1
    } else {
        frozen_index(monitors.drop_last(), id)
    }
}

/// Whether every image in the session is whole.
pub open spec fn all_whole<D>(s: FrozenState<D>) -> bool {
    &&& forall|i: int| 0 <= i < s.monitors.len() ==> (#[trigger] s.monitors[i]).image.is_whole()
    &&& s.selected matches Some(image) ==> image.is_whole()
}

/// The refusal given when a frozen monitor is asked for that is not there.
pub open spec fn missing_message() -> Seq<char> {
    "The frozen monitor image is no longer available"@
}

/// The refusal given for a selection that does not lie on its monitor.
pub open spec fn off_monitor_message() -> Seq<char> {
    "The selected region is not on the monitor"@
}

proof fn lemma_frozen_index<D>(monitors: Seq<FrozenMonitor<D>>, id: u32)
    ensures
        -1 <= frozen_index(monitors, id) < monitors.len(),
        frozen_index(monitors, id) == -1 <==> frozen_monitor(monitors, id) is None,
        frozen_index(monitors, id) >= 0 ==> frozen_monitor(monitors, id) == Some(
            monitors[frozen_index(monitors, id)],
        ),
    decreases monitors.len(),
{
    if monitors.len() > 0 && monitors.last().id != id {
        lemma_frozen_index(monitors.drop_last(), id);
    }
}

proof fn lemma_frozen_prefix<D>(monitors: Seq<FrozenMonitor<D>>, id: u32, i: int)
    requires
        0 <= i < monitors.len(),
        monitors[i].id != id,
    ensures
        frozen_index(monitors.take(i + 1), id) == frozen_index(monitors.take(i), id),
{
    assert(monitors.take(i + 1).drop_last() =~= monitors.take(i));
}

impl<D> FrozenSession<D> {
    /// No freeze yet.
    pub fn new() -> (r: FrozenSession<D>)
        ensures
            r@.generation == 0,
            r@.monitors.len() == 0,
            r@.selected is None,
    {
        FrozenSession { generation: 0, monitors: Vec::new(), selected: None }
    }

    /// Starts a new freeze, forgetting the last one, and returns its
    /// generation; only a capture made for that generation may be installed.
    pub fn begin(&mut self) -> (r: u64)
        ensures
            final(self)@ == restarted(old(self)@),
            r == final(self)@.generation,
    {
        self.generation = self.generation.wrapping_add(1);
        self.monitors = Vec::new();
        self.selected = None;
        self.generation
    }

    /// Cancels the freeze: the generation moves on, so a capture still under
    /// way is dropped when it arrives, and everything frozen is forgotten.
    /// Returns whether anything was frozen or selected.
    pub fn cancel(&mut self) -> (r: bool)
        ensures
            final(self)@ == restarted(old(self)@),
            r == (old(self)@.monitors.len() > 0 || old(self)@.selected is Some),
    {
        let had_capture = self.monitors.len() > 0 || self.selected.is_some();
        self.generation = self.generation.wrapping_add(1);
        self.monitors = Vec::new();
        self.selected = None;
        had_capture
    }

    /// Installs the monitors captured for `generation`, if that is still the
    /// session's; returns whether it was.
    pub fn install(&mut self, generation: u64, monitors: Vec<FrozenMonitor<D>>) -> (r: bool)
        ensures
            final(self)@ == installed(old(self)@, generation, monitors@),
            r == (generation == old(self)@.generation),
    {
        if self.generation != generation {
            return false;
        }
        self.monitors = monitors;
        true
    }

    /// Whether `generation` is still the session's.
    pub fn is_current(&self, generation: u64) -> (r: bool)
        ensures
            r == (generation == self@.generation),
    {
        self.generation == generation
    }

    fn find(&self, id: u32) -> (r: Option<usize>)
        ensures
            match r {
                Some(i) => i < self@.monitors.len() && i == frozen_index(self@.monitors, id),
                None => frozen_index(self@.monitors, id) == -1,
            },
    {
        let ghost ms = self@.monitors;
        let mut i: usize = self.monitors.len();
        proof {
            assert(ms.take(i as int) =~= ms);
        }
        while i > 0
            invariant
                ms == self@.monitors,
                i <= ms.len(),
                frozen_index(ms, id) == frozen_index(ms.take(i as int), id),
            decreases i,
        {
            let j = i - 1;
            if self.monitors[j].id == id {
                proof {
                    assert(ms.take(i as int).last() == ms[j as int]);
                }
                return Some(j);
            }
            proof {
                lemma_frozen_prefix(ms, id, j as int);
            }
            i = j;
        }
        None
    }

    /// The frozen monitor with `id`, if there is one.
    pub fn monitor(&self, id: u32) -> (r: Option<&FrozenMonitor<D>>)
        ensures
            match r {
                Some(m) => frozen_monitor(self@.monitors, id) == Some(*m),
                None => frozen_monitor(self@.monitors, id) is None,
            },
    {
        proof {
            lemma_frozen_index(self@.monitors, id);
        }
        match self.find(id) {
            Some(i) => Some(&self.monitors[i]),
            None => None,
        }
    }

    /// The size of the frozen monitor with `id`, or the refusal given when it
    /// is gone.
    pub fn frozen_size(&self, id: u32) -> (r: Result<(u32, u32), String>)
        ensures
            match frozen_monitor(self@.monitors, id) {
                Some(m) => r == Ok::<(u32, u32), String>((m.image.width, m.image.height)),
                None => r matches Err(message) && message@ == missing_message(),
            },
    {
        match self.monitor(id) {
            Some(m) => Ok((m.image.width, m.image.height)),
            None => Err(String::from_str("The frozen monitor image is no longer available")),
        }
    }

    /// Replaces what the shell keeps beside the frozen monitor with `id`,
    /// provided `generation` is still the session's; a result derived from an
    /// older freeze is dropped.
    pub fn set_detail(&mut self, generation: u64, id: u32, detail: D)
        ensures
            final(self)@.generation == old(self)@.generation,
            final(self)@.selected == old(self)@.selected,
            final(self)@.monitors.len() == old(self)@.monitors.len(),
            ({
                let k = frozen_index(old(self)@.monitors, id);
                forall|i: int|
                    0 <= i < old(self)@.monitors.len() ==> #[trigger] final(self)@.monitors[i] == if generation
                        == old(self)@.generation && i == k {
                        FrozenMonitor {
                            id: old(self)@.monitors[i].id,
                            detail,
                            image: old(self)@.monitors[i].image,
                        }
                    } else {
                        old(self)@.monitors[i]
                    }
            }),
    {
        if self.generation != generation {
            return;
        }
        match self.find(id) {
            Some(i) => {
                let old_monitor = self.monitors.remove(i);
                let FrozenMonitor { id: monitor_id, detail: _, image } = old_monitor;
                self.monitors.insert(i, FrozenMonitor { id: monitor_id, detail, image });
            },
            None => {},
        }
    }

    /// Cuts `rect` out of the frozen monitor with `id` and keeps it as the
    /// selection. Refused when the monitor is gone or the rectangle does not
    /// lie on it.
    pub fn select_region(&mut self, id: u32, rect: PixelRect) -> (r: Result<CapturedImage, String>)
        requires
            all_whole(old(self)@),
        ensures
            all_whole(final(self)@),
            final(self)@.generation == old(self)@.generation,
            final(self)@.monitors == old(self)@.monitors,
            match frozen_monitor(old(self)@.monitors, id) {
                None => r matches Err(message) && message@ == missing_message() && final(self)@
                    == old(self)@,
                Some(m) => if !rect_fits(rect, m.image.width, m.image.height) {
                    r matches Err(message) && message@ == off_monitor_message() && final(self)@
                        == old(self)@
                } else {
                    r matches Ok(image) && final(self)@.selected matches Some(kept)
                        && kept.rgba@ == image.rgba@ && kept.width == image.width && kept.height
                        == image.height && image.width == rect.width && image.height
                        == rect.height && image.is_whole() && forall|x: int, y: int, c: int|
                        0 <= x < rect.width && 0 <= y < rect.height && 0 <= c < 4
                            ==> #[trigger] image.rgba@[(y * rect.width + x) * 4 + c]
                            == m.image.rgba@[((rect.y + y) * m.image.width + rect.x + x) * 4 + c]
                },
            },
    {
        proof {
            lemma_frozen_index(self@.monitors, id);
        }
        let i = match self.find(id) {
            Some(i) => i,
            None => {
                return Err(String::from_str("The frozen monitor image is no longer available"));
            },
        };
        let source = &self.monitors[i].image;
        if !(rect.x as u64 + rect.width as u64 <= source.width as u64 && rect.y as u64
            + rect.height as u64 <= source.height as u64) {
            return Err(String::from_str("The selected region is not on the monitor"));
        }
        let length = source.rgba.len();
        proof {
            assert(self@.monitors[i as int].image.is_whole());
            assert(length == source.rgba@.len());
        }
        let image = crop(source, rect);
        self.selected = Some(image.duplicate());
        Ok(image)
    }

    /// A copy of the selected region, if there is one.
    pub fn selected(&self) -> (r: Option<CapturedImage>)
        ensures
            match self@.selected {
                Some(kept) => r matches Some(image) && image.rgba@ == kept.rgba@ && image.width
                    == kept.width && image.height == kept.height,
                None => r is None,
            },
    {
        match &self.selected {
            Some(image) => Some(image.duplicate()),
            None => None,
        }
    }
}

/// What the text recognition overlay is told of a frozen monitor before its
/// pixels are streamed to it: their size.
#[derive(Clone, Copy, Debug, PartialEq, Eq, Structural)]
pub struct TextRecognitionSnapshot {
    pub height: u32,
    pub width: u32,
}

impl<D> FrozenSession<D> {
    /// The pixels of the frozen monitor with `id`, with their size, or the
    /// refusal given when it is gone.
    pub fn snapshot(&self, id: u32) -> (r: Result<(Vec<u8>, TextRecognitionSnapshot), String>)
        ensures
            match frozen_monitor(self@.monitors, id) {
                Some(m) => r matches Ok((pixels, size)) && pixels@ == m.image.rgba@ && size
                    == TextRecognitionSnapshot { height: m.image.height, width: m.image.width },
                None => r matches Err(message) && message@ == missing_message(),
            },
    {
        match self.monitor(id) {
            Some(m) => {
                let copy = m.image.duplicate();
                Ok((copy.rgba, TextRecognitionSnapshot { height: m.image.height, width: m.image.width }))
            },
            None => Err(String::from_str("The frozen monitor image is no longer available")),
        }
    }
}

impl<D> FrozenSession<D> {
    /// Whether every image held is whole (see `all_whole`).
    pub open spec fn is_whole(&self) -> bool {
        all_whole(self@)
    }
}

/// A capture installs into the freeze it was made for.
pub proof fn law_a_capture_installs_into_its_own_freeze<D>(
    s: FrozenState<D>,
    monitors: Seq<FrozenMonitor<D>>,
)
    ensures
        installed(restarted(s), restarted(s).generation, monitors).monitors == monitors,
{
}

/// A capture made for a freeze that has since been cancelled, or replaced by
/// a newer one, is dropped and changes nothing.
pub proof fn law_a_superseded_capture_is_dropped<D>(
    s: FrozenState<D>,
    monitors: Seq<FrozenMonitor<D>>,
)
    ensures
        ({
            let stale = restarted(s).generation;
            installed(restarted(restarted(s)), stale, monitors) == restarted(restarted(s))
        }),
{
}

/// After a freeze begins or is cancelled, no monitor is frozen and nothing is
/// selected.
pub proof fn law_a_restart_forgets_everything<D>(s: FrozenState<D>, id: u32)
    ensures
        frozen_monitor(restarted(s).monitors, id) is None,
        restarted(s).selected is None,
{
}

/// The monitor delivered last under an id is the one found under it.
pub proof fn law_the_last_delivery_wins<D>(monitors: Seq<FrozenMonitor<D>>, m: FrozenMonitor<D>)
    ensures
        frozen_monitor(monitors.push(m), m.id) == Some(m),
{
}

/// The gradient maps the ruler measures a frozen monitor with: a horizontal and
/// a vertical plane, one byte per pixel each.
pub struct GradientMaps {
    pub gx: Vec<u8>,
    pub gy: Vec<u8>,
    pub width: u32,
    pub height: u32,
}

impl GradientMaps {
    /// Each plane holds exactly one byte for each pixel.
    pub open spec fn is_well_formed(&self) -> bool {
        &&& self.gx.len() == self.width * self.height
        &&& self.gy.len() == self.width * self.height
    }
}

/// The size of the gradient planes sent to the ruler's window.
#[derive(Clone, Copy, Debug, PartialEq, Eq, Structural)]
pub struct RulerGradientsMeta {
    pub height: u32,
    pub width: u32,
}

/// What the ruler's window is sent of `gradients`: one buffer holding the
/// horizontal plane followed by the vertical one, and the planes' size. Of
/// well-formed maps the buffer holds two bytes for each pixel.
pub fn gradient_stream(gradients: &GradientMaps) -> (r: (Vec<u8>, RulerGradientsMeta))
    requires
        gradients.gx.len() + gradients.gy.len() <= usize::MAX,
    ensures
        r.0@ == gradients.gx@ + gradients.gy@,
        r.1 == (RulerGradientsMeta { height: gradients.height, width: gradients.width }),
        gradients.is_well_formed() ==> r.0@.len() == 2 * (r.1.width * r.1.height),
{
    let total = gradients.gx.len() + gradients.gy.len();
    let mut planes: Vec<u8> = Vec::with_capacity(total);
    let mut i: usize = 0;
    while i < gradients.gx.len()
        invariant
            i <= gradients.gx.len(),
            planes@ == gradients.gx@.take(i as int),
        decreases gradients.gx.len() - i,
    {
        planes.push(gradients.gx[i]);
        i += 1;
        assert(planes@ =~= gradients.gx@.take(i as int));
    }
    assert(gradients.gx@.take(i as int) =~= gradients.gx@);
    let mut j: usize = 0;
    while j < gradients.gy.len()
        invariant
            j <= gradients.gy.len(),
            planes@ == gradients.gx@ + gradients.gy@.take(j as int),
        decreases gradients.gy.len() - j,
    {
        planes.push(gradients.gy[j]);
        j += 1;
        assert(planes@ =~= gradients.gx@ + gradients.gy@.take(j as int));
    }
    assert(gradients.gy@.take(j as int) =~= gradients.gy@);
    (planes, RulerGradientsMeta { height: gradients.height, width: gradients.width })
}

} // verus!
