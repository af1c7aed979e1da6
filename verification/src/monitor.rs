//! The confidence signals a running capture sends to the recording dock:
//! which sources are live, audio levels and small camera frames, each as one
//! binary message. Only the newest dock to subscribe receives them.
use vstd::prelude::*;

verus! {

/// The first byte of a message saying which sources are live.
pub const SOURCES_EVENT: u8 = 0;

/// The first byte of a system audio level message.
pub const SYSTEM_AUDIO_EVENT: u8 = 1;

/// The first byte of a microphone level message.
pub const MICROPHONE_EVENT: u8 = 2;

/// The first byte of a camera frame message.
pub const CAMERA_EVENT: u8 = 3;

/// The bit of the sources byte that says system audio is live.
pub const SYSTEM_AUDIO_FLAG: u8 = 1;

/// The bit of the sources byte that says a microphone is live.
pub const MICROPHONE_FLAG: u8 = 2;

/// The bit of the sources byte that says a camera is live.
pub const CAMERA_FLAG: u8 = 4;

/// The sources byte for a set of live sources.
pub open spec fn source_flags(system_audio: bool, microphone: bool, camera: bool) -> u8 {
    ((if system_audio {
        SYSTEM_AUDIO_FLAG
    } else {
        0
    }) + (if microphone {
        MICROPHONE_FLAG
    } else {
        0
    }) + (if camera {
        CAMERA_FLAG
    } else {
        0
    })) as u8
}

/// The message saying which sources are live: the event byte, then one bit
/// per live source.
pub fn sources_payload(system_audio: bool, microphone: bool, camera: bool) -> (r: Vec<u8>)
    ensures
        r@ == seq![SOURCES_EVENT, source_flags(system_audio, microphone, camera)],
{
    let mut flags: u8 = 0;
    if system_audio {
        flags = flags + SYSTEM_AUDIO_FLAG;
    }
    if microphone {
        flags = flags + MICROPHONE_FLAG;
    }
    if camera {
        flags = flags + CAMERA_FLAG;
    }
    let mut payload: Vec<u8> = Vec::new();
    payload.push(SOURCES_EVENT);
    payload.push(flags);
    assert(payload@ =~= seq![SOURCES_EVENT, source_flags(system_audio, microphone, camera)]);
    payload
}

/// The two bytes of `value`, least significant first.
pub open spec fn le_bytes(value: u16) -> Seq<u8> {
    seq![(value % 256) as u8, (value / 256) as u8]
}

/// A camera frame message: the event byte, the width and height, each two
/// bytes least significant first, then the RGBA pixels.
pub fn camera_payload(width: u16, height: u16, rgba: Vec<u8>) -> (r: Vec<u8>)
    ensures
        r@ == seq![CAMERA_EVENT] + le_bytes(width) + le_bytes(height) + rgba@,
{
    let mut payload: Vec<u8> = Vec::new();
    payload.push(CAMERA_EVENT);
    payload.push((width % 256) as u8);
    payload.push((width / 256) as u8);
    payload.push((height % 256) as u8);
    payload.push((height / 256) as u8);
    let mut pixels = rgba;
    let ghost header = payload@;
    payload.append(&mut pixels);
    assert(header =~= seq![CAMERA_EVENT] + le_bytes(width) + le_bytes(height));
    payload
}

/// Which level a level message carries.
#[derive(Clone, Copy, Debug, PartialEq, Eq, Structural)]
pub enum LevelSource {
    SystemAudio,
    Microphone,
}

/// The event byte of a level message.
pub open spec fn level_event(source: LevelSource) -> u8 {
    match source {
        LevelSource::SystemAudio => SYSTEM_AUDIO_EVENT,
        LevelSource::Microphone => MICROPHONE_EVENT,
    }
}

/// A level message: the event byte, then the level in decibels as the four
/// little-endian bytes of a 32-bit float.
pub fn level_payload(source: LevelSource, decibels_le: [u8; 4]) -> (r: Vec<u8>)
    ensures
        r@ == seq![level_event(source)] + decibels_le@,
{
    let mut payload: Vec<u8> = Vec::new();
    match source {
        LevelSource::SystemAudio => payload.push(SYSTEM_AUDIO_EVENT),
        LevelSource::Microphone => payload.push(MICROPHONE_EVENT),
    }
    let mut i: usize = 0;
    while i < 4
        invariant
            i <= 4,
            payload@ =~= seq![level_event(source)] + decibels_le@.take(i as int),
        decreases 4 - i,
    {
        payload.push(decibels_le[i]);
        proof {
            assert(decibels_le@.take(i + 1) =~= decibels_le@.take(i as int).push(decibels_le@[i as int]));
        }
        i = i + 1;
    }
    assert(decibels_le@.take(4) =~= decibels_le@);
    payload
}

/// Who receives the signals: at most one subscriber, the newest, with the
/// channel its messages go to.
pub struct Subscriptions<C> {
    current: Option<(u64, C)>,
}

impl<C> Subscriptions<C> {
    /// The id of the current subscriber, if any.
    pub closed spec fn subscriber(&self) -> Option<u64> {
        match self.current {
            Some(s) => Some(s.0),
            None => None,
        }
    }

    /// The channel of the current subscriber, if any.
    pub closed spec fn subscribed_channel(&self) -> Option<C> {
        match self.current {
            Some(s) => Some(s.1),
            None => None,
        }
    }

    /// Nobody subscribed.
    pub fn new() -> (r: Subscriptions<C>)
        ensures
            r.subscriber() is None,
            r.subscribed_channel() is None,
    {
        Subscriptions { current: None }
    }

    /// Subscribes `id` with `channel`, unless a newer subscriber (one with a
    /// larger id) already holds the subscription. Returns whether `id` now
    /// holds it; the caller then tells it which sources are live.
    pub fn subscribe(&mut self, id: u64, channel: C) -> (r: bool)
        ensures
            r == !(old(self).subscriber() matches Some(current) && current > id),
            r ==> final(self).subscriber() == Some(id) && final(self).subscribed_channel() == Some(
                channel,
            ),
            !r ==> final(self).subscriber() == old(self).subscriber()
                && final(self).subscribed_channel() == old(self).subscribed_channel(),
    {
        match &self.current {
            Some(current) => {
                if current.0 > id {
                    return false;
                }
            },
            None => {},
        }
        self.current = Some((id, channel));
        true
    }

    /// Ends the subscription of `id`, if it holds it; a superseded subscriber
    /// leaving does not end its successor's.
    pub fn unsubscribe(&mut self, id: u64)
        ensures
            old(self).subscriber() == Some(id) ==> final(self).subscriber() is None
                && final(self).subscribed_channel() is None,
            old(self).subscriber() != Some(id) ==> final(self).subscriber() == old(self).subscriber()
                && final(self).subscribed_channel() == old(self).subscribed_channel(),
    {
        let ends = match &self.current {
            Some(current) => current.0 == id,
            None => false,
        };
        if ends {
            self.current = None;
        }
    }

    /// Whether anyone is subscribed.
    pub fn is_subscribed(&self) -> (r: bool)
        ensures
            r == self.subscriber() is Some,
    {
        self.current.is_some()
    }

    /// The channel messages go to, if anyone is subscribed.
    pub fn channel(&self) -> (r: Option<&C>)
        ensures
            match r {
                Some(c) => self.subscribed_channel() == Some(*c),
                None => self.subscribed_channel() is None,
            },
    {
        match &self.current {
            Some(current) => Some(&current.1),
            None => None,
        }
    }
}

} // verus!
