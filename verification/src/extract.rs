//! The arithmetic of frame extraction.
//!
//! The host owns the codec runtime: it opens containers, pumps packets and
//! receives decoded frames. Everything it decides with is computed here:
//! stream durations and frame rates from the stream headers, seek targets in
//! stream time-base units, the smart default timestamp, the blank-frame
//! heuristic, and the bounded search for an acceptable frame.

use vstd::prelude::*;
use crate::types::VideoMetadata;

verus! {

proof fn lemma_scale_fits(mag: u128, f: u128)
    requires
        mag <= 0x8000_0000_0000_0000,
        f <= 0x8000_0000,
    ensures
        mag * f <= 0x4000_0000_0000_0000_0000_0000,
        mag * f * 1000 <= 0xfa00_0000_0000_0000_0000_0000_0000,
{
    assert(mag * f <= 0x4000_0000_0000_0000_0000_0000) by (nonlinear_arith)
        requires
            mag <= 0x8000_0000_0000_0000,
            f <= 0x8000_0000,
    ;
    assert(mag * f * 1000 <= 0xfa00_0000_0000_0000_0000_0000_0000) by (nonlinear_arith)
        requires
            mag * f <= 0x4000_0000_0000_0000_0000_0000,
    ;
}

/// The stream duration in milliseconds: `units * num * 1000 / den`, truncated
/// toward zero as the host's cast would truncate it.
pub open spec fn duration_ms_spec(units: int, num: int, den: int) -> int {
    if units >= 0 {
        units * num * 1000 / den
    } else {
        -((-units) * num * 1000 / den)
    }
}

/// Scale a stream duration from time-base units to milliseconds.
pub fn duration_ms_of(units: i64, tb_num: i32, tb_den: i32) -> (r: i64)
    requires
        1 <= tb_num,
        1 <= tb_den,
        -(i64::MAX as int) <= duration_ms_spec(units as int, tb_num as int, tb_den as int)
            <= i64::MAX as int,
    ensures
        r == duration_ms_spec(units as int, tb_num as int, tb_den as int),
{
    let neg = units < 0;
    let mag = units.unsigned_abs() as u128;
    proof {
        lemma_scale_fits(mag, tb_num as u128);
    }
    let scaled = mag * (tb_num as u128) * 1000 / (tb_den as u128);
    if neg {
        -(scaled as i64)
    } else {
        scaled as i64
    }
}

/// A timestamp in seconds converted to stream time-base units:
/// `ts_ms * den / (num * 1000)`, truncated toward zero.
pub open spec fn seek_units_spec(ts_ms: int, num: int, den: int) -> int {
    if ts_ms >= 0 {
        ts_ms * den / (num * 1000)
    } else {
        -((-ts_ms) * den / (num * 1000))
    }
}

/// Convert a timestamp in milliseconds to the stream's native time units, for
/// the backward keyframe seek.
pub fn seek_target_units(ts_ms: i64, tb_num: i32, tb_den: i32) -> (r: i64)
    requires
        1 <= tb_num,
        1 <= tb_den,
        -(i64::MAX as int) <= seek_units_spec(ts_ms as int, tb_num as int, tb_den as int)
            <= i64::MAX as int,
    ensures
        r == seek_units_spec(ts_ms as int, tb_num as int, tb_den as int),
{
    let neg = ts_ms < 0;
    let mag = ts_ms.unsigned_abs() as u128;
    proof {
        lemma_scale_fits(mag, tb_den as u128);
    }
    let units = mag * (tb_den as u128) / ((tb_num as u128) * 1000);
    if neg {
        -(units as i64)
    } else {
        units as i64
    }
}

/// The effective frame rate: the declared rational, or 30 frames per second
/// when the stream declares a non-positive denominator.
pub fn effective_fps(rate_num: i32, rate_den: i32) -> (r: (i32, i32))
    ensures
        rate_den > 0 ==> r == (rate_num, rate_den),
        rate_den <= 0 ==> r == (30i32, 1i32),
{
    if rate_den > 0 {
        (rate_num, rate_den)
    } else {
        (30, 1)
    }
}

/// Assemble the metadata of a video stream from its header values.
pub fn metadata_of(
    duration_units: i64,
    tb_num: i32,
    tb_den: i32,
    width: u32,
    height: u32,
    codec: String,
    bitrate: i64,
    rate_num: i32,
    rate_den: i32,
) -> (r: VideoMetadata)
    requires
        1 <= tb_num,
        1 <= tb_den,
        -(i64::MAX as int) <= duration_ms_spec(duration_units as int, tb_num as int, tb_den as int)
            <= i64::MAX as int,
    ensures
        r.duration_ms == duration_ms_spec(duration_units as int, tb_num as int, tb_den as int),
        r.width == width,
        r.height == height,
        r.codec@ == codec@,
        r.bitrate == bitrate,
        rate_den > 0 ==> r.fps_num == rate_num && r.fps_den == rate_den,
        rate_den <= 0 ==> r.fps_num == 30 && r.fps_den == 1,
{
    let duration_ms = duration_ms_of(duration_units, tb_num, tb_den);
    let (fps_num, fps_den) = effective_fps(rate_num, rate_den);
    VideoMetadata { duration_ms, width, height, codec, bitrate, fps_num, fps_den }
}

/// The smart default timestamp: 10% into the video, clamped into
/// `[1s, 30s]`, and then capped to one second before the end.
pub open spec fn smart_timestamp_spec(d: int) -> int {
    let tenth = if d / 10 < 1000 {
        1000
    } else {
        d / 10
    };
    let capped = if tenth > 30000 {
        30000
    } else {
        tenth
    };
    if capped > d - 1000 {
        d - 1000
    } else {
        capped
    }
}

/// Pick the default sampling point of a video from its duration in
/// milliseconds.
pub fn smart_timestamp(duration_ms: i64) -> (r: i64)
    requires
        0 <= duration_ms,
    ensures
        r == smart_timestamp_spec(duration_ms as int),
{
    let mut t = duration_ms / 10;
    if t < 1000 {
        t = 1000;
    }
    if t > 30000 {
        t = 30000;
    }
    let cap = duration_ms - 1000;
    if t > cap {
        t = cap;
    }
    t
}

/// The smart timestamp of any video of at least two seconds lies at least one
/// second in, at most thirty seconds in, and at least one second before the
/// end.
pub proof fn lemma_smart_timestamp_bounds(d: int)
    requires
        d >= 2000,
    ensures
        1000 <= smart_timestamp_spec(d),
        smart_timestamp_spec(d) <= 30000,
        smart_timestamp_spec(d) <= d - 1000,
{
}

/// Number of dark bytes among the first `n` samples, sampling every
/// `stride`-th byte against the luma threshold `dark`.
pub open spec fn dark_samples_with(data: Seq<u8>, dark: u8, stride: int, n: int) -> int
    decreases n,
{
    if n <= 0 {
        0
    } else {
        dark_samples_with(data, dark, stride, n - 1) + if data[stride * (n - 1)] < dark {
            1int
        } else {
            0int
        }
    }
}

/// The blank-frame heuristic at a given threshold and stride: a plane under
/// 100 bytes is blank; otherwise every `stride`-th byte of the first
/// up-to-1000 bytes is sampled, and the frame is blank when more than 90% of
/// the sampled bytes are darker than the threshold.
pub open spec fn is_blank_spec_with(data: Seq<u8>, dark: u8, stride: int) -> bool {
    if data.len() < 100 {
        true
    } else {
        let sample_size = if data.len() < 1000 {
            data.len() as int
        } else {
            1000
        };
        dark_samples_with(data, dark, stride, (sample_size + stride - 1) / stride) * 10 > (
        sample_size / stride) * 9
    }
}

/// The default heuristic: luma threshold 20, every tenth byte.
pub open spec fn is_blank_spec(data: Seq<u8>) -> bool {
    is_blank_spec_with(data, 20, 10)
}

proof fn lemma_dark_samples_bound(data: Seq<u8>, dark: u8, stride: int, n: int)
    requires
        n >= 0,
    ensures
        0 <= dark_samples_with(data, dark, stride, n) <= n,
    decreases n,
{
    if n > 0 {
        lemma_dark_samples_bound(data, dark, stride, n - 1);
    }
}

/// Classify a frame plane as blank or usable, with a tunable dark-luma
/// threshold and sample stride.
pub fn is_blank_frame_with(data: &[u8], dark: u8, stride: usize) -> (r: bool)
    requires
        1 <= stride,
    ensures
        r == is_blank_spec_with(data@, dark, stride as int),
{
    let len = data.len();
    if len < 100 {
        return true;
    }
    let sample_size: usize = if len < 1000 {
        len
    } else {
        1000
    };
    let n_samples = (((sample_size as u128) + (stride as u128) - 1) / (stride as u128)) as usize;
    proof {
        assert((sample_size as int + stride as int - 1) / (stride as int) <= sample_size as int)
            by (nonlinear_arith)
            requires
                1 <= stride,
                1 <= sample_size,
        ;
        assert(0 <= (sample_size as int + stride as int - 1) / (stride as int))
            by (nonlinear_arith)
            requires
                1 <= stride,
                1 <= sample_size,
        ;
    }
    let mut black: u32 = 0;
    let mut j: usize = 0;
    while j < n_samples
        invariant
            1 <= stride,
            j <= n_samples,
            100 <= sample_size <= 1000,
            sample_size <= data@.len(),
            n_samples as int == (sample_size as int + stride as int - 1) / (stride as int),
            n_samples <= sample_size,
            black == dark_samples_with(data@, dark, stride as int, j as int),
            black <= j,
        decreases n_samples - j,
    {
        proof {
            lemma_dark_samples_bound(data@, dark, stride as int, j as int);
            assert(stride as int * (j as int) < sample_size as int) by (nonlinear_arith)
                requires
                    1 <= stride,
                    0 <= j,
                    j < n_samples,
                    n_samples as int == (sample_size as int + stride as int - 1) / (stride as int),
                    1 <= sample_size,
            ;
        }
        let idx = stride * j;
        if data[idx] < dark {
            black = black + 1;
        }
        proof {
            assert(stride as int * ((j as int + 1) - 1) == stride as int * (j as int));
        }
        j = j + 1;
    }
    let denominator = (sample_size as u64) / (stride as u64);
    (black as u64) * 10 > denominator * 9
}

/// Classify a decoded frame's first plane with the default threshold and
/// stride.
pub fn is_blank_frame(data: &[u8]) -> (r: bool)
    ensures
        r == is_blank_spec(data@),
{
    is_blank_frame_with(data, 20, 10)
}

/// How the bounded frame search answers one decoded frame.
pub enum FrameVerdict {
    /// The frame is usable: decoding stops here.
    Accept,
    /// The frame is blank: keep decoding.
    Skip,
    /// The frame is blank and the attempt budget is spent: stop and report
    /// that no valid frame was found.
    GiveUp,
}

/// The bounded search for a non-blank frame: at most 30 blank frames are
/// examined before the search gives up.
pub struct FrameSearch {
    blanks: u32,
}

impl FrameSearch {
    /// Blank frames examined so far.
    pub closed spec fn blanks_seen(&self) -> u32 {
        self.blanks
    }

    /// Start a fresh search.
    pub fn new() -> (r: Self)
        ensures
            r.blanks_seen() == 0,
    {
        FrameSearch { blanks: 0 }
    }

    /// Judge one decoded frame by its first plane: accept the first non-blank
    /// frame, skip blank ones, and give up once 30 blank frames have been
    /// seen.
    pub fn offer(&mut self, plane0: &[u8]) -> (v: FrameVerdict)
        requires
            old(self).blanks_seen() < 30,
        ensures
            !is_blank_spec(plane0@) ==> v == FrameVerdict::Accept && final(self).blanks_seen()
                == old(self).blanks_seen(),
            is_blank_spec(plane0@) ==> final(self).blanks_seen() == old(self).blanks_seen() + 1,
            is_blank_spec(plane0@) && old(self).blanks_seen() + 1 < 30 ==> v == FrameVerdict::Skip,
            is_blank_spec(plane0@) && old(self).blanks_seen() + 1 >= 30 ==> v
                == FrameVerdict::GiveUp,
    {
        if !is_blank_frame(plane0) {
            FrameVerdict::Accept
        } else {
            self.blanks = self.blanks + 1;
            if self.blanks >= 30 {
                FrameVerdict::GiveUp
            } else {
                FrameVerdict::Skip
            }
        }
    }
}

} // verus!
