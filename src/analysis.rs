//! How the measurement kernel walks a buffer: fixed-size chunks for the
//! loudness meter and the oversampler, half-overlapping FFT windows.

use vstd::prelude::*;

verus! {

/// Frames per chunk fed to the loudness meter.
pub const LOUDNESS_CHUNK_FRAMES: usize = 4096;

/// Points of the spectrum FFT.
pub const FFT_SIZE: usize = 4096;

/// The `k`-th chunk of `size` frames over `frames` frames; the last may be short.
pub open spec fn chunk_at(frames: int, size: int, k: int) -> (int, int) {
    (k * size, if (k + 1) * size < frames { (k + 1) * size } else { frames })
}

/// The chunks that cover `frames` frames in order, each `size` long but the
/// last: chunk `k` is `[k * size, min((k + 1) * size, frames))`.
pub fn chunk_ranges(frames: usize, size: usize) -> (r: Vec<(usize, usize)>)
    requires
        size > 0,
    ensures
        r@.len() == (frames + size - 1) / size as int,
        forall|k: int|
            0 <= k < r@.len() ==> ((#[trigger] r@[k]).0 as int, r@[k].1 as int) == chunk_at(
                frames as int,
                size as int,
                k,
            ),
{
    let mut r: Vec<(usize, usize)> = Vec::new();
    let mut start: usize = 0;
    assert(0 * size == 0) by (nonlinear_arith);
    while start < frames
        invariant
            size > 0,
            start <= frames,
            r@.len() * size < frames + size,
            start < frames ==> start as int == r@.len() * size,
            start == frames ==> r@.len() * size >= frames,
            forall|k: int|
                0 <= k < r@.len() ==> ((#[trigger] r@[k]).0 as int, r@[k].1 as int) == chunk_at(
                    frames as int,
                    size as int,
                    k,
                ),
        decreases frames - start,
    {
        let end: usize = if frames - start > size { start + size } else { frames };
        let ghost k = r@.len() as int;
        assert((k + 1) * size == k * size + size) by (nonlinear_arith);
        r.push((start, end));
        start = end;
    }
    let ghost m = r@.len() as int;
    assert(m == (frames + size - 1) / size as int) by (nonlinear_arith)
        requires
            size > 0,
            m * size >= frames,
            m * size < frames + size,
    ;
    r
}

/// The number of half-overlapping windows of `FFT_SIZE` frames over
/// `frames` frames; `None` below one window, where no spectrum is measured.
pub fn spectrum_windows(frames: usize) -> (r: Option<usize>)
    ensures
        frames < FFT_SIZE ==> r is None,
        frames >= FFT_SIZE ==> (r matches Some(w) && w == (frames - FFT_SIZE) / 2048 + 1),
{
    if frames < FFT_SIZE {
        None
    } else {
        Some((frames - FFT_SIZE) / (FFT_SIZE / 2) + 1)
    }
}

} // verus!
