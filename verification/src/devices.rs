//! The microphone and camera lists the recording bar offers, and how they are
//! ordered: the system default first, then by name regardless of case.
use vstd::prelude::*;
use vstd::string::*;

use crate::camera_modes::{preferred_mode, sort_camera_modes};
use crate::names::{decimal, push_decimal_to};

verus! {

/// The lower-case form of a text, as `str::to_lowercase` gives it.
pub uninterp spec fn lowercase(text: Seq<char>) -> Seq<char>;

/// The lower-case form of `text`.
///
/// Trusted: calls `str::to_lowercase`, which maps each character through the
/// Unicode lower-case mapping. The contract claims only that the result is a
/// function of the text's characters, named `lowercase`.
#[verifier::external_body]
pub(crate) fn to_lowercase(text: &str) -> (r: String)
    ensures
        r@ == lowercase(text@),
{
    text.to_lowercase()
}

/// Whether `a` sorts strictly after `b`, character by character, a proper
/// prefix first: the order of Rust's `String`.
pub open spec fn text_after(a: Seq<char>, b: Seq<char>) -> bool
    decreases a.len(),
{
    if b.len() == 0 {
        a.len() > 0
    } else if a.len() == 0 {
        false
    } else if a[0] != b[0] {
        a[0] > b[0]
    } else {
        text_after(a.drop_first(), b.drop_first())
    }
}

/// Whether text `a` sorts strictly after text `b`.
fn is_text_after(a: &str, b: &str) -> (r: bool)
    ensures
        r == text_after(a@, b@),
{
    let n = a.unicode_len();
    let m = b.unicode_len();
    let mut i: usize = 0;
    proof {
        assert(a@.skip(0) =~= a@);
        assert(b@.skip(0) =~= b@);
    }
    while i < n && i < m
        invariant
            n == a@.len(),
            m == b@.len(),
            i <= n,
            i <= m,
            text_after(a@, b@) == text_after(a@.skip(i as int), b@.skip(i as int)),
        decreases n - i,
    {
        let x = a.get_char(i);
        let y = b.get_char(i);
        proof {
            assert(a@.skip(i as int)[0] == x);
            assert(b@.skip(i as int)[0] == y);
            assert(a@.skip(i as int).drop_first() =~= a@.skip(i + 1));
            assert(b@.skip(i as int).drop_first() =~= b@.skip(i + 1));
        }
        if x != y {
            return x > y;
        }
        i = i + 1;
    }
    proof {
        assert(a@.skip(i as int).len() == n - i);
        assert(b@.skip(i as int).len() == m - i);
    }
    i < n
}

/// An entry of a device list: whether it is the system default, and its name.
pub trait ListedDevice {
    spec fn is_default_spec(&self) -> bool;

    spec fn label_spec(&self) -> Seq<char>;

    fn is_default_device(&self) -> (r: bool)
        ensures
            r == self.is_default_spec(),
    ;

    fn label_text(&self) -> (r: &str)
        ensures
            r@ == self.label_spec(),
    ;
}

/// Whether device `a` is listed strictly after device `b`: the default
/// device first, then by lower-cased name.
pub open spec fn device_after<T: ListedDevice>(a: T, b: T) -> bool {
    (b.is_default_spec() && !a.is_default_spec()) || (a.is_default_spec() == b.is_default_spec()
        && text_after(lowercase(a.label_spec()), lowercase(b.label_spec())))
}

/// Where device `d` goes in the ordered list `s`: after every entry it is not
/// listed strictly before.
pub open spec fn device_insert_position<T: ListedDevice>(s: Seq<T>, d: T) -> int
    decreases s.len(),
{
    if s.len() == 0 {
        0
    } else if device_after(s.last(), d) {
        device_insert_position(s.drop_last(), d)
    } else {
        s.len() as int
    }
}

/// The devices of `s` in list order, ties keeping their order.
pub open spec fn device_listing<T: ListedDevice>(s: Seq<T>) -> Seq<T>
    decreases s.len(),
{
    if s.len() == 0 {
        s
    } else {
        let rest = device_listing(s.drop_last());
        rest.insert(device_insert_position(rest, s.last()), s.last())
    }
}

proof fn lemma_device_position_bound<T: ListedDevice>(s: Seq<T>, d: T)
    ensures
        0 <= device_insert_position(s, d) <= s.len(),
    decreases s.len(),
{
    if s.len() > 0 && device_after(s.last(), d) {
        lemma_device_position_bound(s.drop_last(), d);
    }
}

/// Whether device `a` is listed strictly after device `b`.
fn is_device_after<T: ListedDevice>(a: &T, b: &T) -> (r: bool)
    ensures
        r == device_after(*a, *b),
{
    let a_default = a.is_default_device();
    let b_default = b.is_default_device();
    if a_default != b_default {
        return b_default;
    }
    let a_name = to_lowercase(a.label_text());
    let b_name = to_lowercase(b.label_text());
    is_text_after(a_name.as_str(), b_name.as_str())
}

/// Orders a device list: the system default first, then by lower-cased name;
/// devices that tie keep their order.
pub fn order_devices<T: ListedDevice>(devices: &mut Vec<T>)
    ensures
        final(devices)@ == device_listing(old(devices)@),
{
    let ghost given = devices@;
    let n = devices.len();
    let mut i: usize = 0;
    while i < n
        invariant
            n == given.len(),
            devices@.len() == n,
            i <= n,
            devices@.take(i as int) == device_listing(given.take(i as int)),
            devices@.skip(i as int) == given.skip(i as int),
        decreases n - i,
    {
        let ghost sorted = devices@.take(i as int);
        let ghost rest = devices@;
        let d = devices.remove(i);
        proof {
            assert(d == given[i as int]) by {
                assert(rest.skip(i as int)[0] == given.skip(i as int)[0]);
            }
            assert(devices@.take(i as int) =~= sorted);
            assert(sorted.take(i as int) =~= sorted);
        }
        let mut j: usize = i;
        while j > 0 && is_device_after(&devices[j - 1], &d)
            invariant
                devices@.len() == n - 1,
                i < n,
                j <= i,
                devices@.take(i as int) == sorted,
                sorted.len() == i,
                device_insert_position(sorted, d) == device_insert_position(sorted.take(j as int), d),
            decreases j,
        {
            proof {
                assert(sorted.take(j as int).drop_last() =~= sorted.take(j - 1));
                assert(sorted.take(j as int).last() == sorted[j - 1]);
                assert(devices@[j - 1] == sorted[j - 1]);
            }
            j = j - 1;
        }
        proof {
            assert(device_insert_position(sorted.take(j as int), d) == j) by {
                if j > 0 {
                    assert(sorted.take(j as int).last() == sorted[j - 1]);
                    assert(devices@[j - 1] == sorted[j - 1]);
                }
            }
            lemma_device_position_bound(sorted, d);
        }
        let ghost after_remove = devices@;
        devices.insert(j, d);
        proof {
            assert(given.take(i + 1).drop_last() =~= given.take(i as int));
            assert(given.take(i + 1).last() == d);
            assert(devices@.take(i + 1) =~= sorted.insert(j as int, d));
            assert(devices@.skip(i + 1) =~= given.skip(i + 1)) by {
                assert(after_remove =~= rest.remove(i as int));
                assert forall|k: int| 0 <= k < n - (i + 1) implies #[trigger] devices@.skip(i + 1)[k]
                    == given.skip(i + 1)[k] by {
                    assert(devices@[i + 1 + k] == after_remove[i + k]);
                    assert(after_remove[i + k] == rest[i + 1 + k]);
                    assert(rest.skip(i as int)[k + 1] == given.skip(i as int)[k + 1]);
                }
            }
        }
        i = i + 1;
    }
    proof {
        assert(devices@.take(n as int) =~= devices@);
        assert(given.take(n as int) =~= given);
    }
}

/// A microphone as the recording bar lists it.
pub struct InputDeviceDetails {
    pub id: String,
    pub label: String,
    pub is_default: bool,
}

impl ListedDevice for InputDeviceDetails {
    open spec fn is_default_spec(&self) -> bool {
        self.is_default
    }

    open spec fn label_spec(&self) -> Seq<char> {
        self.label@
    }

    fn is_default_device(&self) -> (r: bool) {
        self.is_default
    }

    fn label_text(&self) -> (r: &str) {
        self.label.as_str()
    }
}

/// `s` with every entry that repeats the id of the entry before it removed, so
/// each run of one id keeps its first entry.
pub open spec fn without_repeated_ids(s: Seq<InputDeviceDetails>) -> Seq<InputDeviceDetails>
    decreases s.len(),
{
    if s.len() <= 1 {
        s
    } else {
        let rest = without_repeated_ids(s.drop_last());
        if s.last().id@ == s[s.len() - 2].id@ {
            rest
        } else {
            rest.push(s.last())
        }
    }
}

/// The microphone list the bar shows: the system default first, then by
/// lower-cased name, with an entry repeating the id of the one before it
/// dropped.
pub fn order_microphones(devices: Vec<InputDeviceDetails>) -> (r: Vec<InputDeviceDetails>)
    ensures
        r@ == without_repeated_ids(device_listing(devices@)),
{
    let mut devices = devices;
    order_devices(&mut devices);
    let ghost listed = devices@;
    let mut kept: Vec<InputDeviceDetails> = Vec::new();
    let mut last_id: Option<String> = None;
    let mut i: usize = 0;
    let n = devices.len();
    while i < n
        invariant
            n == listed.len(),
            devices@.len() == n - i,
            i <= n,
            devices@ == listed.skip(i as int),
            kept@ == without_repeated_ids(listed.take(i as int)),
            i == 0 <==> last_id is None,
            i > 0 ==> (last_id matches Some(id) && id@ == listed[i - 1].id@),
        decreases n - i,
    {
        let device = devices.remove(0);
        proof {
            assert(device == listed[i as int]) by {
                assert(listed.skip(i as int)[0] == listed[i as int]);
            }
            assert(devices@ =~= listed.skip(i + 1));
            assert(listed.take(i + 1).drop_last() =~= listed.take(i as int));
            assert(listed.take(i + 1).last() == device);
            if i > 0 {
                assert(listed.take(i + 1)[i - 1] == listed[i - 1]);
            }
        }
        let repeat = match &last_id {
            Some(id) => id.eq(&device.id),
            None => false,
        };
        last_id = Some(device.id.clone());
        if !repeat {
            kept.push(device);
        }
        i = i + 1;
    }
    proof {
        assert(listed.take(n as int) =~= listed);
    }
    kept
}

/// One capture mode of a camera as the bar lists it.
pub struct CameraResolutionDetails {
    pub id: String,
    pub label: String,
    pub is_default: bool,
    pub width: u32,
    pub height: u32,
    pub fps: u32,
}

/// A camera as the bar lists it.
pub struct CameraDeviceDetails {
    pub id: String,
    pub label: String,
    pub is_default: bool,
    pub modes: Vec<CameraResolutionDetails>,
}

impl ListedDevice for CameraDeviceDetails {
    open spec fn is_default_spec(&self) -> bool {
        self.is_default
    }

    open spec fn label_spec(&self) -> Seq<char> {
        self.label@
    }

    fn is_default_device(&self) -> (r: bool) {
        self.is_default
    }

    fn label_text(&self) -> (r: &str) {
        self.label.as_str()
    }
}

/// The id a capture mode is offered under: `WIDTHxHEIGHT@FPS`.
pub open spec fn mode_id(width: u32, height: u32, fps: u32) -> Seq<char> {
    decimal(width as nat) + "x"@ + decimal(height as nat) + "@"@ + decimal(fps as nat)
}

/// The label a capture mode is shown with: `WIDTH × HEIGHT`.
pub open spec fn mode_label(width: u32, height: u32) -> Seq<char> {
    decimal(width as nat) + " × "@ + decimal(height as nat)
}

/// The listing entry for one capture mode.
fn mode_details(mode: (u32, u32, u32), preferred: Option<(u32, u32, u32)>) -> (r: CameraResolutionDetails)
    ensures
        r.id@ == mode_id(mode.0, mode.1, mode.2),
        r.label@ == mode_label(mode.0, mode.1),
        r.is_default == (preferred == Some(mode)),
        r.width == mode.0,
        r.height == mode.1,
        r.fps == mode.2,
{
    let (width, height, fps) = mode;
    let mut id = String::new();
    push_decimal_to(&mut id, width);
    id.append("x");
    push_decimal_to(&mut id, height);
    id.append("@");
    push_decimal_to(&mut id, fps);
    let mut label = String::new();
    push_decimal_to(&mut label, width);
    label.append(" × ");
    push_decimal_to(&mut label, height);
    let is_default = match preferred {
        Some(p) => p.0 == width && p.1 == height && p.2 == fps,
        None => false,
    };
    proof {
        assert(id@ =~= mode_id(width, height, fps));
        assert(label@ =~= mode_label(width, height));
    }
    CameraResolutionDetails { id, label, is_default, width, height, fps }
}

/// Whether `details` lists the capture modes `modes` for a request at
/// `requested_fps`: the modes in picker order, each with its id and label, the
/// preferred one (see `preferred_mode`) marked as the default.
pub open spec fn lists_modes(
    details: Seq<CameraResolutionDetails>,
    modes: Seq<(u32, u32, u32)>,
    requested_fps: u32,
) -> bool {
    &&& details.len() == modes.len()
    &&& forall|k: int|
        0 <= k < details.len() ==> {
            let m = crate::camera_modes::listing(modes, requested_fps)[k];
            &&& #[trigger] details[k].width == m.0
            &&& details[k].height == m.1
            &&& details[k].fps == m.2
            &&& details[k].id@ == mode_id(m.0, m.1, m.2)
            &&& details[k].label@ == mode_label(m.0, m.1)
        }
    &&& details.len() > 0 ==> exists|best: int|
        #[trigger] crate::camera_modes::is_first_preferred(
            crate::camera_modes::listing(modes, requested_fps),
            best,
            requested_fps,
        ) && forall|k: int|
            0 <= k < details.len() ==> #[trigger] details[k].is_default == (
            crate::camera_modes::listing(modes, requested_fps)[k] == crate::camera_modes::listing(
                modes,
                requested_fps,
            )[best])
}

/// The capture modes a camera is listed with, for a request at
/// `requested_fps`: the modes in picker order, each with its id and label, the
/// preferred one (see `preferred_mode`) marked as the default.
pub fn camera_mode_details(modes: Vec<(u32, u32, u32)>, requested_fps: u32) -> (r: Vec<
    CameraResolutionDetails,
>)
    ensures
        lists_modes(r@, modes@, requested_fps),
{
    let ghost given = modes@;
    let mut modes = modes;
    sort_camera_modes(&mut modes, requested_fps);
    proof {
        crate::camera_modes::lemma_listing_len(given, requested_fps);
    }
    let preferred = preferred_mode(modes.as_slice(), requested_fps);
    let ghost listed = modes@;
    let mut details: Vec<CameraResolutionDetails> = Vec::new();
    let mut i: usize = 0;
    while i < modes.len()
        invariant
            listed == modes@,
            i <= modes@.len(),
            details@.len() == i,
            forall|k: int|
                0 <= k < i ==> {
                    let m = listed[k];
                    &&& #[trigger] details@[k].width == m.0
                    &&& details@[k].height == m.1
                    &&& details@[k].fps == m.2
                    &&& details@[k].id@ == mode_id(m.0, m.1, m.2)
                    &&& details@[k].label@ == mode_label(m.0, m.1)
                    &&& details@[k].is_default == (preferred == Some(m))
                },
        decreases modes@.len() - i,
    {
        details.push(mode_details(modes[i], preferred));
        i = i + 1;
    }
    proof {
        if details@.len() > 0 {
            let m = preferred.unwrap();
            let best = choose|k: int| #[trigger] crate::camera_modes::is_first_preferred(listed, k, requested_fps) && listed[k] == m;
            assert(crate::camera_modes::is_first_preferred(listed, best, requested_fps));
            assert forall|k: int| 0 <= k < details@.len() implies #[trigger] details@[k].is_default == (listed[k] == listed[best]) by {
                assert(details@[k].width == listed[k].0);
            }
        }
    }
    details
}

/// A camera as the device query reports it: its id, its name, and the capture
/// modes it offers for the requested frame rate.
pub struct CameraCandidate {
    pub id: String,
    pub label: String,
    pub modes: Vec<(u32, u32, u32)>,
}

/// The cameras of `cameras` that offer at least one mode, in order.
pub open spec fn cameras_with_modes(cameras: Seq<CameraCandidate>) -> Seq<CameraCandidate>
    decreases cameras.len(),
{
    if cameras.len() == 0 {
        Seq::empty()
    } else {
        let rest = cameras_with_modes(cameras.drop_last());
        if cameras.last().modes@.len() > 0 {
            rest.push(cameras.last())
        } else {
            rest
        }
    }
}

/// Whether `listed` describes `cameras` one for one, before ordering: the
/// same id and name, the first marked as the default, and each camera's
/// modes listed (see `lists_modes`).
pub open spec fn describes_cameras(
    listed: Seq<CameraDeviceDetails>,
    cameras: Seq<CameraCandidate>,
    requested_fps: u32,
) -> bool {
    &&& listed.len() == cameras.len()
    &&& forall|k: int|
        0 <= k < listed.len() ==> {
            &&& #[trigger] listed[k].id@ == cameras[k].id@
            &&& listed[k].label@ == cameras[k].label@
            &&& listed[k].is_default == (k == 0)
            &&& lists_modes(listed[k].modes@, cameras[k].modes@, requested_fps)
        }
}

/// The camera list the bar shows for a request at `requested_fps`: every
/// camera that offers a mode, the first of them marked as the default, each
/// with its modes listed, then ordered as devices are (the default first,
/// then by lower-cased name).
pub fn camera_listing(cameras: Vec<CameraCandidate>, requested_fps: u32) -> (r: Vec<
    CameraDeviceDetails,
>)
    ensures
        exists|listed: Seq<CameraDeviceDetails>|
            #[trigger] describes_cameras(listed, cameras_with_modes(cameras@), requested_fps)
                && r@ == device_listing(listed),
{
    let ghost given = cameras@;
    let mut remaining = cameras;
    let mut result: Vec<CameraDeviceDetails> = Vec::new();
    let mut i: usize = 0;
    let n = remaining.len();
    while i < n
        invariant
            n == given.len(),
            i <= n,
            remaining@ == given.skip(i as int),
            describes_cameras(result@, cameras_with_modes(given.take(i as int)), requested_fps),
        decreases n - i,
    {
        let camera = remaining.remove(0);
        proof {
            assert(camera == given[i as int]);
            assert(given.take(i + 1).drop_last() =~= given.take(i as int));
            assert(given.take(i + 1).last() == camera);
            assert(given.skip(i as int).drop_first() =~= given.skip(i + 1));
        }
        let CameraCandidate { id, label, modes } = camera;
        if modes.len() > 0 {
            let is_default = result.len() == 0;
            let ghost before = result@;
            let details = camera_mode_details(modes, requested_fps);
            result.push(CameraDeviceDetails { id, label, is_default, modes: details });
            proof {
                let cams = cameras_with_modes(given.take(i + 1));
                assert(cams == cameras_with_modes(given.take(i as int)).push(given[i as int]));
                assert forall|k: int| 0 <= k < result@.len() implies {
                    &&& #[trigger] result@[k].id@ == cams[k].id@
                    &&& result@[k].label@ == cams[k].label@
                    &&& result@[k].is_default == (k == 0)
                    &&& lists_modes(result@[k].modes@, cams[k].modes@, requested_fps)
                } by {
                    if k < before.len() {
                        assert(result@[k] == before[k]);
                    }
                }
            }
        } else {
            proof {
                assert(cameras_with_modes(given.take(i + 1)) == cameras_with_modes(
                    given.take(i as int),
                ));
            }
        }
        i = i + 1;
    }
    proof {
        assert(given.take(n as int) =~= given);
    }
    let ghost listed = result@;
    order_devices(&mut result);
    assert(describes_cameras(listed, cameras_with_modes(given), requested_fps));
    result
}

} // verus!
