//! Other applications' windows, as the window picker handles them on
//! Windows: the style bits that take a window's frame away and give it back,
//! and an application icon's pixels.
use vstd::prelude::*;

verus! {

/// The window style bits of a frame: overlapped window, caption, border,
/// dialog frame, sizing frame, minimise and maximise boxes, window menu.
pub const FRAME_STYLE_BITS: u32 = 0x00CF_0000 | 0x00C0_0000 | 0x0080_0000 | 0x0040_0000
    | 0x0004_0000 | 0x0002_0000 | 0x0001_0000 | 0x0008_0000;

/// The pop-up window style bit.
pub const POPUP_STYLE_BIT: u32 = 0x8000_0000;

/// The overlapped-window style bits a frameless window gets back when its
/// earlier style is unknown.
pub const OVERLAPPED_WINDOW_BITS: u32 = 0x00CF_0000;

/// The extended style bits of a frame's edges: dialog modal frame, client
/// edge, static edge, window edge.
pub const FRAME_EDGE_BITS: u32 = 0x0000_0001 | 0x0000_0200 | 0x0002_0000 | 0x0000_0100;

/// The extended style bits a frameless window gets back when its earlier
/// style is unknown: window edge and client edge.
pub const RESTORED_EDGE_BITS: u32 = 0x0000_0100 | 0x0000_0200;

/// The style of a window made frameless: the frame bits cleared, along with
/// everything above the low 32 bits, and the pop-up bit set.
pub open spec fn frameless_style(style: i64) -> i64 {
    (style & ((!FRAME_STYLE_BITS) as i64)) | (POPUP_STYLE_BIT as i64)
}

/// The extended style of a window made frameless: the edge bits cleared,
/// along with everything above the low 32 bits.
pub open spec fn frameless_extended_style(extended: i64) -> i64 {
    extended & ((!FRAME_EDGE_BITS) as i64)
}

/// The styles a window made frameless is given.
pub fn frameless_styles(style: i64, extended: i64) -> (r: (i64, i64))
    ensures
        r == (frameless_style(style), frameless_extended_style(extended)),
{
    let frame_mask = (!FRAME_STYLE_BITS) as i64;
    let edge_mask = (!FRAME_EDGE_BITS) as i64;
    ((style & frame_mask) | (POPUP_STYLE_BIT as i64), extended & edge_mask)
}

/// The styles saved for windows made frameless, window by window.
pub struct SavedStyles {
    saved: Vec<(i64, i64, i64)>,
}

/// The styles saved for `window` in `saved`, if any.
pub open spec fn saved_for(saved: Seq<(i64, i64, i64)>, window: i64) -> Option<(i64, i64)>
    decreases saved.len(),
{
    if saved.len() == 0 {
        None
    } else if saved.last().0 == window {
        Some((saved.last().1, saved.last().2))
    } else {
        saved_for(saved.drop_last(), window)
    }
}

/// Whether no window has two entries.
pub open spec fn one_entry_per_window(saved: Seq<(i64, i64, i64)>) -> bool {
    forall|a: int, b: int| 0 <= a < b < saved.len() ==> saved[a].0 != saved[b].0
}

/// What is saved for a window made frameless whose present styles are
/// `style` and `extended`: whatever was saved for it already, or else those.
pub open spec fn saved_after_frameless(saved: Option<(i64, i64)>, style: i64, extended: i64) -> Option<(i64, i64)> {
    match saved {
        Some(kept) => Some(kept),
        None => Some((style, extended)),
    }
}

/// The styles a window whose present styles are `style` and `extended` gets
/// back with its frame: those saved for it, or else its present styles with
/// an overlapped window's frame and edges added.
pub open spec fn restored_styles(saved: Option<(i64, i64)>, style: i64, extended: i64) -> (i64, i64) {
    match saved {
        Some(kept) => kept,
        None => (style | (OVERLAPPED_WINDOW_BITS as i64), extended | (RESTORED_EDGE_BITS as i64)),
    }
}

impl SavedStyles {
    /// The saved styles, as (window, style, extended style) entries.
    pub closed spec fn entries(&self) -> Seq<(i64, i64, i64)> {
        self.saved@
    }

    /// The styles saved for `window`, if any.
    pub open spec fn saved(&self, window: i64) -> Option<(i64, i64)> {
        saved_for(self.entries(), window)
    }

    /// Whether no window has two entries.
    pub open spec fn wf(&self) -> bool {
        one_entry_per_window(self.entries())
    }

    /// Nothing saved.
    pub fn new() -> (r: SavedStyles)
        ensures
            r.wf(),
            forall|window: i64| #[trigger] r.saved(window) is None,
    {
        SavedStyles { saved: Vec::new() }
    }

    fn find(&self, window: i64) -> (r: Option<usize>)
        requires
            self.wf(),
        ensures
            match r {
                Some(i) => i < self.entries().len() && self.entries()[i as int].0 == window
                    && self.saved(window) == Some(
                    (self.entries()[i as int].1, self.entries()[i as int].2),
                ),
                None => self.saved(window) is None && forall|k: int|
                    0 <= k < self.entries().len() ==> #[trigger] self.entries()[k].0 != window,
            },
    {
        let ghost all = self.saved@;
        let mut i: usize = self.saved.len();
        proof {
            assert(all.take(i as int) =~= all);
        }
        while i > 0
            invariant
                all == self.saved@,
                one_entry_per_window(all),
                i <= all.len(),
                saved_for(all, window) == saved_for(all.take(i as int), window),
                forall|k: int| i <= k < all.len() ==> #[trigger] all[k].0 != window,
            decreases i,
        {
            let j = i - 1;
            if self.saved[j].0 == window {
                proof {
                    assert(all.take(i as int).last() == all[j as int]);
                }
                return Some(j);
            }
            proof {
                assert(all.take(i as int).drop_last() =~= all.take(j as int));
            }
            i = j;
        }
        proof {
            assert(all.take(0) =~= Seq::<(i64, i64, i64)>::empty());
        }
        None
    }

    /// Makes `window`, whose styles are now `style` and `extended`, frameless:
    /// returns the styles to give it, and saves the ones it has unless some
    /// were saved for it already (so repeating keeps the first).
    pub fn make_frameless(&mut self, window: i64, style: i64, extended: i64) -> (r: (i64, i64))
        requires
            old(self).wf(),
        ensures
            final(self).wf(),
            r == (frameless_style(style), frameless_extended_style(extended)),
            final(self).saved(window) == saved_after_frameless(old(self).saved(window), style, extended),
            forall|other: i64| other != window ==> #[trigger] final(self).saved(other) == old(
                self,
            ).saved(other),
    {
        match self.find(window) {
            Some(_) => {},
            None => {
                let ghost before = self.saved@;
                self.saved.push((window, style, extended));
                proof {
                    assert(self.saved@.drop_last() =~= before);
                }
            },
        }
        frameless_styles(style, extended)
    }

    /// Gives `window`, whose styles are now `style` and `extended`, its frame
    /// back: the styles saved for it, forgetting them, or else its present
    /// styles with an overlapped window's frame and edges added.
    pub fn restore_frame(&mut self, window: i64, style: i64, extended: i64) -> (r: (i64, i64))
        requires
            old(self).wf(),
        ensures
            final(self).wf(),
            r == restored_styles(old(self).saved(window), style, extended),
            final(self).saved(window) is None,
            forall|other: i64| other != window ==> #[trigger] final(self).saved(other) == old(
                self,
            ).saved(other),
    {
        let ghost before = self.saved@;
        match self.find(window) {
            Some(i) => {
                let entry = self.saved.remove(i);
                proof {
                    lemma_saved_after_remove(before, i as int, window);
                }
                (entry.1, entry.2)
            },
            None => (style | (OVERLAPPED_WINDOW_BITS as i64), extended | (RESTORED_EDGE_BITS as i64)),
        }
    }
}

proof fn lemma_saved_after_remove(saved: Seq<(i64, i64, i64)>, i: int, window: i64)
    requires
        one_entry_per_window(saved),
        0 <= i < saved.len(),
        saved[i].0 == window,
    ensures
        one_entry_per_window(saved.remove(i)),
        saved_for(saved.remove(i), window) is None,
        forall|other: i64|
            other != window ==> #[trigger] saved_for(saved.remove(i), other) == saved_for(
                saved,
                other,
            ),
    decreases saved.len(),
{
    let rest = saved.remove(i);
    assert forall|a: int, b: int| 0 <= a < b < rest.len() implies rest[a].0 != rest[b].0 by {
        let sa = if a < i { a } else { a + 1 };
        let sb = if b < i { b } else { b + 1 };
        assert(rest[a] == saved[sa] && rest[b] == saved[sb]);
    }
    if i == saved.len() - 1 {
        assert(rest =~= saved.drop_last());
        assert forall|k: int| 0 <= k < rest.len() implies #[trigger] rest[k].0 != window by {
            assert(rest[k] == saved[k]);
        }
        lemma_absent(rest, window);
        assert forall|other: i64| other != window implies #[trigger] saved_for(rest, other)
            == saved_for(saved, other) by {
            assert(saved.last().0 == window);
        }
    } else {
        assert(rest.last() == saved.last());
        assert(rest.drop_last() =~= saved.drop_last().remove(i));
        assert(one_entry_per_window(saved.drop_last())) by {
            assert forall|a: int, b: int| 0 <= a < b < saved.drop_last().len() implies saved.drop_last()[a].0
                != saved.drop_last()[b].0 by {
                assert(saved.drop_last()[a] == saved[a] && saved.drop_last()[b] == saved[b]);
            }
        }
        lemma_saved_after_remove(saved.drop_last(), i, window);
        assert(saved.last().0 != window) by {
            assert(saved[i].0 == window);
            assert(saved.last() == saved[saved.len() - 1]);
        }
        assert forall|other: i64| other != window implies #[trigger] saved_for(rest, other)
            == saved_for(saved, other) by {
            if saved.last().0 != other {
                assert(saved_for(rest.drop_last(), other) == saved_for(saved.drop_last(), other));
            }
        }
    }
}

proof fn lemma_absent(saved: Seq<(i64, i64, i64)>, window: i64)
    requires
        forall|k: int| 0 <= k < saved.len() ==> #[trigger] saved[k].0 != window,
    ensures
        saved_for(saved, window) is None,
    decreases saved.len(),
{
    if saved.len() > 0 {
        assert forall|k: int| 0 <= k < saved.drop_last().len() implies #[trigger] saved.drop_last()[k].0
            != window by {
            assert(saved.drop_last()[k] == saved[k]);
        }
        lemma_absent(saved.drop_last(), window);
    }
}

/// Making a window frameless and then giving it its frame back restores the
/// styles it had before, whatever styles it has by then; making it frameless
/// again in between changes nothing of that.
pub proof fn law_a_frame_comes_back_as_it_was(
    style: i64,
    extended: i64,
    again_style: i64,
    again_extended: i64,
    later_style: i64,
    later_extended: i64,
)
    ensures
        restored_styles(saved_after_frameless(None, style, extended), later_style, later_extended)
            == (style, extended),
        restored_styles(
            saved_after_frameless(
                saved_after_frameless(None, style, extended),
                again_style,
                again_extended,
            ),
            later_style,
            later_extended,
        ) == (style, extended),
{
}

/// Whether every whole pixel of a 32-bit image is fully transparent.
pub open spec fn all_transparent(pixels: Seq<u8>) -> bool {
    forall|p: int| 0 <= p < pixels.len() / 4 ==> #[trigger] pixels[4 * p + 3] == 0
}

/// Byte `i` of an icon's BGRA pixels after conversion to RGBA: blue and red
/// swap places, and an icon whose pixels are all fully transparent (one drawn
/// without an alpha channel) is made opaque. Bytes after the last whole pixel
/// stay as they are.
pub open spec fn icon_byte(bgra: Seq<u8>, i: int) -> u8 {
    let whole = bgra.len() / 4 * 4;
    let p = i / 4;
    let c = i % 4;
    if i >= whole {
        bgra[i]
    } else if c == 0 {
        bgra[4 * p + 2]
    } else if c == 2 {
        bgra[4 * p]
    } else if c == 3 && all_transparent(bgra) {
        255
    } else {
        bgra[i]
    }
}

/// An application icon's pixels as RGBA (see `icon_byte`).
pub fn icon_rgba(bgra: &Vec<u8>) -> (r: Vec<u8>)
    ensures
        r@.len() == bgra@.len(),
        forall|i: int| 0 <= i < bgra@.len() ==> #[trigger] r@[i] == icon_byte(bgra@, i),
{
    let n = bgra.len();
    let pixels = n / 4;
    let mut transparent = true;
    let mut p: usize = 0;
    while p < pixels
        invariant
            n == bgra@.len(),
            pixels == n / 4,
            p <= pixels,
            transparent == forall|q: int| 0 <= q < p ==> #[trigger] bgra@[4 * q + 3] == 0,
        decreases pixels - p,
    {
        if bgra[4 * p + 3] != 0 {
            transparent = false;
        }
        p = p + 1;
    }
    assert(transparent == all_transparent(bgra@));
    let mut out: Vec<u8> = Vec::new();
    let mut q: usize = 0;
    while q < pixels
        invariant
            n == bgra@.len(),
            pixels == n / 4,
            q <= pixels,
            transparent == all_transparent(bgra@),
            out@.len() == 4 * q,
            forall|i: int| 0 <= i < 4 * q ==> #[trigger] out@[i] == icon_byte(bgra@, i),
        decreases pixels - q,
    {
        let base = 4 * q;
        let alpha = if transparent {
            255
        } else {
            bgra[base + 3]
        };
        let ghost before = out@;
        out.push(bgra[base + 2]);
        out.push(bgra[base + 1]);
        out.push(bgra[base]);
        out.push(alpha);
        proof {
            assert forall|i: int| 0 <= i < 4 * (q + 1) implies #[trigger] out@[i] == icon_byte(bgra@, i) by {
                if i < 4 * q {
                    assert(out@[i] == before[i]);
                } else {
                    assert(i / 4 == q);
                }
            }
        }
        q = q + 1;
    }
    let mut i: usize = 4 * pixels;
    while i < n
        invariant
            n == bgra@.len(),
            pixels == n / 4,
            4 * pixels <= i <= n,
            out@.len() == i,
            forall|k: int| 0 <= k < i ==> #[trigger] out@[k] == icon_byte(bgra@, k),
        decreases n - i,
    {
        let ghost before = out@;
        out.push(bgra[i]);
        proof {
            assert forall|k: int| 0 <= k < i + 1 implies #[trigger] out@[k] == icon_byte(bgra@, k) by {
                if k < i {
                    assert(out@[k] == before[k]);
                }
            }
        }
        i = i + 1;
    }
    out
}

} // verus!
