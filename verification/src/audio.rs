//! Which part of a recording holds speech: the frame arithmetic of trimming,
//! given which frames are loud enough to count as speech.
use vstd::prelude::*;

verus! {

/// Samples per analysis frame: `frame_milliseconds` of audio, at least one.
pub open spec fn frame_size_spec(sample_rate_hz: u32, frame_milliseconds: u32) -> int {
    let size = (sample_rate_hz * frame_milliseconds) / 1000;
    if size >= 1 { size } else { 1 }
}

pub fn frame_size_for(sample_rate_hz: u32, frame_milliseconds: u32) -> (r: usize)
    requires
        sample_rate_hz * frame_milliseconds <= u32::MAX,
    ensures
        r == frame_size_spec(sample_rate_hz, frame_milliseconds),
        r >= 1,
{
    let size = (sample_rate_hz * frame_milliseconds) / 1000;
    if size >= 1 {
        size as usize
    } else {
        1
    }
}

/// The first loud frame.
pub open spec fn is_first_loud(loud: Seq<bool>, i: int) -> bool {
    0 <= i < loud.len() && loud[i] && forall|j: int| 0 <= j < i ==> !#[trigger] loud[j]
}

/// The last loud frame.
pub open spec fn is_last_loud(loud: Seq<bool>, i: int) -> bool {
    0 <= i < loud.len() && loud[i] && forall|j: int| i < j < loud.len() ==> !#[trigger] loud[j]
}

pub open spec fn at_least_one(n: int) -> int {
    if n >= 1 { n } else { 1 }
}

/// The samples kept around the speech: from the first loud frame to the last,
/// widened by the padding on both sides and clipped to the recording; nothing
/// when no frame is loud or the speech is shorter than the minimum.
pub open spec fn speech_range_spec(
    loud: Seq<bool>,
    sample_count: int,
    frame_size: int,
    frame_milliseconds: u32,
    padding_milliseconds: u32,
    minimum_speech_milliseconds: u32,
    r: Option<(usize, usize)>,
) -> bool {
    if !(exists|i: int| 0 <= i < loud.len() && #[trigger] loud[i]) {
        r is None
    } else {
        exists|first: int, last: int| {
            &&& #[trigger] is_first_loud(loud, first)
            &&& #[trigger] is_last_loud(loud, last)
            &&& {
                let minimum_frames = at_least_one((minimum_speech_milliseconds / frame_milliseconds) as int);
                let padding = at_least_one((padding_milliseconds / frame_milliseconds) as int);
                let first_frame = if first >= padding { first - padding } else { 0 };
                let last_frame = if last + padding <= loud.len() - 1 { last + padding } else { loud.len() - 1 };
                let end = if (last_frame + 1) * frame_size <= sample_count { (last_frame + 1) * frame_size } else { sample_count };
                if last - first + 1 < minimum_frames {
                    r is None
                } else {
                    r == Some((((first_frame * frame_size) as usize), (end as usize)))
                }
            }
        }
    }
}

pub fn speech_sample_range(
    loud: &[bool],
    sample_count: usize,
    frame_size: usize,
    frame_milliseconds: u32,
    padding_milliseconds: u32,
    minimum_speech_milliseconds: u32,
) -> (r: Option<(usize, usize)>)
    requires
        frame_milliseconds > 0,
        frame_size >= 1,
        loud@.len() * frame_size <= sample_count,
    ensures
        speech_range_spec(
            loud@,
            sample_count as int,
            frame_size as int,
            frame_milliseconds,
            padding_milliseconds,
            minimum_speech_milliseconds,
            r,
        ),
{
    let n = loud.len();
    let mut first: usize = 0;
    while first < n && !loud[first]
        invariant
            first <= n == loud@.len(),
            forall|j: int| 0 <= j < first ==> !#[trigger] loud@[j],
        decreases n - first,
    {
        first = first + 1;
    }
    if first == n {
        return None;
    }
    let mut last: usize = n - 1;
    while !loud[last]
        invariant
            first <= last < n == loud@.len(),
            loud@[first as int],
            forall|j: int| last < j < n ==> !#[trigger] loud@[j],
        decreases last,
    {
        last = last - 1;
    }
    assert(is_first_loud(loud@, first as int));
    assert(is_last_loud(loud@, last as int));
    let min_div = minimum_speech_milliseconds / frame_milliseconds;
    let minimum_frames: usize = if min_div >= 1 { min_div as usize } else { 1 };
    let pad_div = padding_milliseconds / frame_milliseconds;
    let padding: usize = if pad_div >= 1 { pad_div as usize } else { 1 };
    if last - first + 1 < minimum_frames {
        return None;
    }
    let first_frame: usize = if first >= padding { first - padding } else { 0 };
    let last_frame: usize = if padding <= n - 1 - last { last + padding } else { n - 1 };
    proof {
        assert((last_frame + 1) * frame_size <= n * frame_size) by (nonlinear_arith)
            requires
                last_frame + 1 <= n,
        ;
        assert(first_frame * frame_size <= n * frame_size) by (nonlinear_arith)
            requires
                first_frame <= n,
        ;
    }
    let end = (last_frame + 1) * frame_size;
    Some((first_frame * frame_size, end))
}

/// The 16-bit little-endian two's-complement sample in two bytes.
pub open spec fn s16le_spec(lo: u8, hi: u8) -> int {
    lo as int + 256 * (hi as int) - (if hi >= 128 { 65536int } else { 0int })
}

/// The samples of signed 16-bit little-endian PCM, two bytes each; a trailing
/// odd byte is not a sample.
pub fn decode_s16le(bytes: &[u8]) -> (r: Vec<i16>)
    ensures
        r@.len() == bytes@.len() / 2,
        forall|k: int| 0 <= k < r@.len() ==> #[trigger] r@[k] as int == s16le_spec(bytes@[2 * k], bytes@[2 * k + 1]),
{
    let mut out: Vec<i16> = Vec::new();
    let mut i: usize = 0;
    while i + 1 < bytes.len()
        invariant
            i % 2 == 0,
            i <= bytes@.len(),
            out@.len() == i / 2,
            forall|k: int| 0 <= k < out@.len() ==> #[trigger] out@[k] as int == s16le_spec(bytes@[2 * k], bytes@[2 * k + 1]),
        decreases bytes.len() - i,
    {
        let lo = bytes[i] as i32;
        let hi = bytes[i + 1] as i32;
        let v: i32 = if hi >= 128 { lo + 256 * hi - 65536 } else { lo + 256 * hi };
        let ghost k = out@.len() as int;
        out.push(v as i16);
        proof {
            assert(2 * k == i);
        }
        i = i + 2;
    }
    out
}

} // verus!
