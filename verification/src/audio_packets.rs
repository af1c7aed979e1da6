//! Where audio packets land on a recording's timeline: trimming a system audio
//! packet that began before the movie did, keeping each track's packets in
//! order, and the silence that pads a track out to the end of the movie.
use vstd::prelude::*;
use crate::arith::{clamp_i64, max_int, sat_add, sat_sub};

verus! {

/// Nanoseconds in a second, as a signed count.
pub const NANOS_PER_SEC_I64: i64 = 1_000_000_000;

/// The most PCM frames one silence packet holds.
pub const MAX_SILENCE_FRAMES: i64 = 1_024;

/// What becomes of a system audio packet whose first sample may precede the
/// movie's origin.
#[derive(Clone, Copy, Debug, PartialEq, Eq, Structural)]
pub enum SampleTrim {
    /// The packet starts at or after the origin and is kept whole.
    Keep,
    /// No sample of the packet falls at or after the origin, or its length is
    /// unknown: it is dropped.
    Drop,
    /// The first `frames` samples precede the origin and are cut away.
    Trim { frames: i64 },
}

/// Integer division rounding up, for a positive divisor.
pub open spec fn div_ceil(a: int, b: int) -> int {
    (a + b - 1) / b
}

/// The trim of a packet of `count` samples lasting `duration_ns` whose first
/// sample was captured at `source_ns`, against a movie that begins at
/// `origin_ns`: the samples before the origin, rounded up so that no kept
/// sample precedes it.
pub open spec fn sample_trim_spec(
    origin_ns: i64,
    source_ns: i64,
    count: i64,
    duration_ns: Option<i64>,
) -> SampleTrim {
    let delta = clamp_i64(origin_ns - source_ns);
    if delta <= 0 {
        SampleTrim::Keep
    } else if count <= 0 {
        SampleTrim::Drop
    } else {
        match duration_ns {
            None => SampleTrim::Drop,
            Some(duration) => if duration <= 0 || delta >= duration {
                SampleTrim::Drop
            } else {
                let trim = div_ceil(delta * count, duration as int);
                if trim >= count {
                    SampleTrim::Drop
                } else {
                    SampleTrim::Trim { frames: trim as i64 }
                }
            },
        }
    }
}

/// How much of a system audio packet is kept (see `sample_trim_spec`).
pub fn sample_trim(origin_ns: i64, source_ns: i64, count: i64, duration_ns: Option<i64>) -> (r:
    SampleTrim)
    ensures
        r == sample_trim_spec(origin_ns, source_ns, count, duration_ns),
        r matches SampleTrim::Trim { frames } ==> 0 < frames < count,
{
    let delta = sat_sub(origin_ns, source_ns);
    if delta <= 0 {
        return SampleTrim::Keep;
    }
    if count <= 0 {
        return SampleTrim::Drop;
    }
    let duration = match duration_ns {
        Some(duration) => duration,
        None => {
            return SampleTrim::Drop;
        },
    };
    if duration <= 0 || delta >= duration {
        return SampleTrim::Drop;
    }
    let d = delta as i128;
    let c = count as i128;
    let span = duration as i128;
    assert(0 < d * c <= 0x7fff_ffff_ffff_ffff * 0x7fff_ffff_ffff_ffff) by (nonlinear_arith)
        requires
            0 < d <= 0x7fff_ffff_ffff_ffff,
            0 < c <= 0x7fff_ffff_ffff_ffff,
    ;
    assert(d * c < span * c) by (nonlinear_arith)
        requires
            d < span,
            0 < c,
    ;
    let trim = (d * c + span - 1) / span;
    assert(trim <= c) by (nonlinear_arith)
        requires
            trim == (d * c + span - 1) / (span as int),
            d * c < span * c,
            0 < span,
    ;
    assert(trim > 0) by (nonlinear_arith)
        requires
            trim == (d * c + span - 1) / (span as int),
            0 < d * c,
            0 < span,
    ;
    if trim >= c {
        return SampleTrim::Drop;
    }
    SampleTrim::Trim { frames: trim as i64 }
}

/// Where the next packet of a track lands: where the timeline puts it, or
/// where the track's last packet ended if that is later, so that packets of
/// one track never overlap.
pub fn next_packet_pts(mapped_pts_ns: i64, track_end_ns: Option<i64>) -> (r: i64)
    ensures
        r == match track_end_ns {
            Some(end) => max_int(mapped_pts_ns as int, end as int),
            None => mapped_pts_ns as int,
        },
{
    match track_end_ns {
        Some(end) => if end > mapped_pts_ns {
            end
        } else {
            mapped_pts_ns
        },
        None => mapped_pts_ns,
    }
}

/// Whether a track has to be padded with silence to reach `end_ns`: it exists
/// and its packets end before `end_ns` (a track with no packet counts as
/// ending before the movie).
pub fn needs_padding(has_track: bool, track_end_ns: Option<i64>, end_ns: i64) -> (r: bool)
    ensures
        r == (has_track && match track_end_ns {
            Some(end) => end < end_ns,
            None => -1 < end_ns,
        }),
{
    let end = match track_end_ns {
        Some(end) => end,
        None => -1,
    };
    has_track && end < end_ns
}

/// A packet of silence: where it lands, how many PCM frames it holds, and
/// where the track then ends.
#[derive(Clone, Copy, Debug, PartialEq, Eq, Structural)]
pub struct SilencePacket {
    pub pts_ns: i64,
    pub frames: i64,
    pub end_ns: i64,
}

/// The longest silence packet at `rate`, in nanoseconds.
pub open spec fn max_silence_ns(rate: int) -> int {
    MAX_SILENCE_FRAMES * NANOS_PER_SEC_I64 / rate
}

/// The silence that pads a track ending at `track_end_ns` towards `end_ns`
/// at `rate` frames a second: it starts where the track ends, or one
/// packet's length before `end_ns` if that is later, and holds the frames
/// covering the gap (rounded up, at least one).
pub open spec fn silence_packet_spec(track_end_ns: i64, end_ns: i64, rate: u32) -> SilencePacket {
    let pts = max_int(track_end_ns as int, clamp_i64(end_ns - max_silence_ns(rate as int)));
    let gap = max_int(clamp_i64(end_ns - pts), 1);
    let frames = max_int(
        clamp_i64(clamp_i64(gap * rate) + NANOS_PER_SEC_I64 - 1) / (NANOS_PER_SEC_I64 as int),
        1,
    );
    SilencePacket {
        pts_ns: pts as i64,
        frames: frames as i64,
        end_ns: clamp_i64(pts + frames * NANOS_PER_SEC_I64 / rate as int) as i64,
    }
}

/// The silence packet that pads a track (see `silence_packet_spec`).
pub fn silence_packet(track_end_ns: i64, end_ns: i64, rate: u32) -> (r: SilencePacket)
    requires
        rate > 0,
    ensures
        r == silence_packet_spec(track_end_ns, end_ns, rate),
        1 <= r.frames,
{
    let rate64 = rate as i64;
    let max_packet_ns = MAX_SILENCE_FRAMES * NANOS_PER_SEC_I64 / rate64;
    let earliest = sat_sub(end_ns, max_packet_ns);
    let pts = if track_end_ns > earliest {
        track_end_ns
    } else {
        earliest
    };
    let gap_raw = sat_sub(end_ns, pts);
    let gap = if gap_raw > 1 {
        gap_raw
    } else {
        1
    };
    let wide_gap = gap as i128;
    let wide_rate = rate as i128;
    assert(0 < wide_gap * wide_rate <= 0x7fff_ffff_ffff_ffff * 0xffff_ffff) by (nonlinear_arith)
        requires
            0 < wide_gap <= 0x7fff_ffff_ffff_ffff,
            0 < wide_rate <= 0xffff_ffff,
    ;
    let product = wide_gap * wide_rate;
    let scaled = if product > i64::MAX as i128 {
        i64::MAX
    } else {
        product as i64
    };
    let rounded = sat_add(scaled, NANOS_PER_SEC_I64 - 1) / NANOS_PER_SEC_I64;
    let frames = if rounded > 1 {
        rounded
    } else {
        1
    };
    assert(frames <= 9_223_372_036);
    let length_ns = frames * NANOS_PER_SEC_I64 / rate64;
    SilencePacket { pts_ns: pts, frames, end_ns: sat_add(pts, length_ns) }
}

/// One buffer of a system-audio tap: how many channels it interleaves, and
/// its samples.
pub struct TapBuffer<T> {
    pub channels: u32,
    pub samples: Vec<T>,
}

/// `left` and `right` woven into stereo frames, left first, for as many frames
/// as the shorter of the two holds.
pub open spec fn interleaved<T>(left: Seq<T>, right: Seq<T>) -> Seq<T> {
    let frames = if left.len() <= right.len() {
        left.len()
    } else {
        right.len()
    };
    Seq::new(
        2 * frames,
        |k: int|
            if k % 2 == 0 {
                left[k / 2]
            } else {
                right[k / 2]
            },
    )
}

/// The stereo samples of a tap that delivered `buffer_count` buffers, of which
/// `first` and `second` are the first two: a single buffer of two channels is
/// already interleaved and is taken as it is; two buffers are the left and the
/// right channel, woven together frame by frame; anything else is not stereo.
pub fn stereo_samples<T: Copy>(buffer_count: u32, first: &TapBuffer<T>, second: &TapBuffer<T>) -> (r:
    Option<Vec<T>>)
    ensures
        buffer_count == 1 && first.channels == 2 ==> (r matches Some(v) && v@ == first.samples@),
        buffer_count >= 2 ==> (r matches Some(v) && v@ == interleaved(
            first.samples@,
            second.samples@,
        )),
        buffer_count == 0 || (buffer_count == 1 && first.channels != 2) ==> r is None,
{
    if buffer_count == 1 && first.channels == 2 {
        let mut copy: Vec<T> = Vec::new();
        let mut i: usize = 0;
        while i < first.samples.len()
            invariant
                i <= first.samples.len(),
                copy@ == first.samples@.take(i as int),
            decreases first.samples.len() - i,
        {
            copy.push(first.samples[i]);
            i += 1;
            assert(copy@ =~= first.samples@.take(i as int));
        }
        assert(first.samples@.take(i as int) =~= first.samples@);
        return Some(copy);
    }
    if buffer_count < 2 {
        return None;
    }
    let left = &first.samples;
    let right = &second.samples;
    let frames = if left.len() <= right.len() {
        left.len()
    } else {
        right.len()
    };
    let ghost woven = interleaved(left@, right@);
    let mut samples: Vec<T> = Vec::new();
    let mut i: usize = 0;
    while i < frames
        invariant
            i <= frames,
            frames <= left.len(),
            frames <= right.len(),
            woven.len() == 2 * frames,
            woven == interleaved(left@, right@),
            samples@ == woven.take(2 * i),
        decreases frames - i,
    {
        samples.push(left[i]);
        samples.push(right[i]);
        proof {
            assert(woven[2 * i] == left@[i as int]);
            assert(woven[2 * i + 1] == right@[i as int]);
            assert(samples@ =~= woven.take(2 * (i + 1)));
        }
        i += 1;
    }
    assert(woven.take(2 * i) =~= woven);
    Some(samples)
}

} // verus!
