//! The planar audio buffer: one sample vector per channel, all of one length.

use vstd::prelude::*;

verus! {

/// Planar audio: `samples[c][f]` is frame `f` of channel `c`.
pub struct AudioBuffer<S> {
    pub samples: Vec<Vec<S>>,
    pub sample_rate: u32,
    pub channels: usize,
}

/// The channel planes of a buffer, as sequences.
pub open spec fn planes<S>(samples: Seq<Vec<S>>) -> Seq<Seq<S>> {
    samples.map_values(|v: Vec<S>| v@)
}

impl<S: Copy> AudioBuffer<S> {
    /// One plane per channel, every plane of the same length.
    pub open spec fn wf(&self) -> bool {
        &&& self.samples@.len() == self.channels
        &&& forall|c: int|
            0 <= c < self.channels ==> (#[trigger] self.samples@[c])@.len()
                == self.samples@[0]@.len()
    }

    /// The number of frames: the length of the first plane, or zero without one.
    pub open spec fn frames(&self) -> nat {
        if self.samples@.len() == 0 {
            0
        } else {
            self.samples@[0]@.len()
        }
    }

    /// An empty buffer with `channels` planes.
    pub fn new(channels: usize, sample_rate: u32) -> (r: AudioBuffer<S>)
        ensures
            r.wf(),
            r.channels == channels,
            r.sample_rate == sample_rate,
            r.frames() == 0,
            forall|c: int| 0 <= c < channels ==> (#[trigger] r.samples@[c])@.len() == 0,
    {
        let mut samples: Vec<Vec<S>> = Vec::new();
        let mut c: usize = 0;
        while c < channels
            invariant
                0 <= c <= channels,
                samples@.len() == c,
                forall|k: int| 0 <= k < c ==> (#[trigger] samples@[k])@.len() == 0,
            decreases channels - c,
        {
            samples.push(Vec::new());
            c = c + 1;
        }
        AudioBuffer { samples, sample_rate, channels }
    }

    /// The number of frames.
    pub fn frame_count(&self) -> (r: usize)
        ensures
            r == self.frames(),
    {
        if self.samples.len() == 0 {
            0
        } else {
            self.samples[0].len()
        }
    }

    /// A decoded block fits the buffer: it has a plane for every channel,
    /// and those planes all have one length.
    pub open spec fn block_fits(&self, decoded: Seq<Vec<S>>) -> bool {
        &&& decoded.len() >= self.channels
        &&& forall|c: int|
            0 <= c < self.channels ==> (#[trigger] decoded[c])@.len() == decoded[0]@.len()
    }

    /// Whether every channel has the same number of frames.
    pub fn is_aligned(&self) -> (r: bool)
        ensures
            r == self.wf(),
    {
        if self.samples.len() != self.channels {
            return false;
        }
        let mut c: usize = 0;
        while c < self.channels
            invariant
                self.samples@.len() == self.channels,
                0 <= c <= self.channels,
                forall|k: int| 0 <= k < c ==> (#[trigger] self.samples@[k])@.len() == self.samples@[0]@.len(),
            decreases self.channels - c,
        {
            if self.samples[c].len() != self.samples[0].len() {
                return false;
            }
            c = c + 1;
        }
        true
    }

    /// Appends a decoded block: plane `c` goes to the end of channel `c`.
    /// A block that does not fit (a plane missing for some channel, or
    /// planes of different lengths) is refused with `false` and the buffer
    /// is left as it was, so that every channel keeps the same length.
    pub fn append_planes(&mut self, decoded: &Vec<Vec<S>>) -> (r: bool)
        requires
            old(self).wf(),
        ensures
            r == old(self).block_fits(decoded@),
            !r ==> *final(self) == *old(self),
            r ==> final(self).wf(),
            r ==> final(self).channels == old(self).channels,
            r ==> final(self).sample_rate == old(self).sample_rate,
            r ==> forall|c: int|
                0 <= c < old(self).channels ==> (#[trigger] final(self).samples@[c])@ == old(
                    self,
                ).samples@[c]@ + decoded@[c]@,
            r && old(self).channels > 0 ==> final(self).frames() == old(self).frames()
                + decoded@[0]@.len(),
    {
        if decoded.len() < self.channels {
            return false;
        }
        let mut k: usize = 0;
        while k < self.channels
            invariant
                decoded@.len() >= self.channels,
                0 <= k <= self.channels,
                forall|j: int| 0 <= j < k ==> (#[trigger] decoded@[j])@.len() == decoded@[0]@.len(),
            decreases self.channels - k,
        {
            if decoded[k].len() != decoded[0].len() {
                return false;
            }
            k = k + 1;
        }
        let n = self.channels;
        let mut c: usize = 0;
        while c < n
            invariant
                n <= self.channels,
                n <= decoded@.len(),
                0 <= c <= n,
                self.channels == old(self).channels,
                self.sample_rate == old(self).sample_rate,
                self.samples@.len() == old(self).samples@.len(),
                old(self).samples@.len() == old(self).channels,
                forall|k: int|
                    0 <= k < old(self).channels ==> (#[trigger] self.samples@[k])@ == if k < c {
                        old(self).samples@[k]@ + decoded@[k]@
                    } else {
                        old(self).samples@[k]@
                    },
            decreases n - c,
        {
            let plane = &decoded[c];
            let mut j: usize = 0;
            while j < plane.len()
                invariant
                    0 <= c < n,
                    n <= self.channels,
                    n <= decoded@.len(),
                    plane == decoded@[c as int],
                    0 <= j <= plane@.len(),
                    self.channels == old(self).channels,
                    self.sample_rate == old(self).sample_rate,
                    self.samples@.len() == old(self).samples@.len(),
                    old(self).samples@.len() == old(self).channels,
                    forall|k: int|
                        0 <= k < old(self).channels ==> (#[trigger] self.samples@[k])@ == if k
                            < c {
                            old(self).samples@[k]@ + decoded@[k]@
                        } else if k == c {
                            old(self).samples@[k]@ + plane@.subrange(0, j as int)
                        } else {
                            old(self).samples@[k]@
                        },
                decreases plane@.len() - j,
            {
                let x = plane[j];
                self.samples[c].push(x);
                assert(plane@.subrange(0, j as int + 1) =~= plane@.subrange(0, j as int).push(x));
                j = j + 1;
            }
            assert(plane@.subrange(0, plane@.len() as int) =~= plane@);
            c = c + 1;
        }
        proof {
            assert forall|k: int| 0 <= k < self.channels implies (#[trigger] self.samples@[k])@.len()
                == self.samples@[0]@.len() by {
                assert(old(self).samples@[k]@.len() == old(self).samples@[0]@.len());
                assert(decoded@[k]@.len() == decoded@[0]@.len());
            }
        }
        true
    }

    /// Splits interleaved samples into planes: sample `f * channels + c` is
    /// frame `f` of channel `c`. A trailing partial frame is dropped, so
    /// that every channel has the same length.
    pub fn from_interleaved(data: &Vec<S>, channels: usize, sample_rate: u32) -> (r: AudioBuffer<S>)
        requires
            channels > 0,
        ensures
            r.wf(),
            r.channels == channels,
            r.sample_rate == sample_rate,
            r.frames() == data@.len() / (channels as nat),
            forall|f: int, c: int|
                0 <= f < r.frames() && 0 <= c < channels ==> #[trigger] r.samples@[c]@[f]
                    == data@[f * channels + c],
    {
        let n = data.len();
        let frames = n / channels;
        assert(frames * channels <= data@.len()) by (nonlinear_arith)
            requires
                frames == data@.len() / (channels as nat),
                channels > 0,
        ;
        let mut samples: Vec<Vec<S>> = Vec::new();
        let mut c: usize = 0;
        while c < channels
            invariant
                n == data@.len(),
                frames == data@.len() / (channels as nat),
                frames * channels <= data@.len(),
                0 <= c <= channels,
                samples@.len() == c,
                forall|k: int| 0 <= k < c ==> (#[trigger] samples@[k])@.len() == frames,
                forall|f: int, k: int|
                    0 <= f < frames && 0 <= k < c ==> #[trigger] samples@[k]@[f] == data@[f
                        * channels + k],
            decreases channels - c,
        {
            let mut plane: Vec<S> = Vec::new();
            let mut f: usize = 0;
            while f < frames
                invariant
                    n == data@.len(),
                    frames * channels <= data@.len(),
                    0 <= c < channels,
                    0 <= f <= frames,
                    plane@.len() == f,
                    forall|g: int| 0 <= g < f ==> #[trigger] plane@[g] == data@[g * channels + c],
                decreases frames - f,
            {
                proof {
                    lemma_frame_index(f as int, c as int, frames as int, channels as int);
                }
                plane.push(data[f * channels + c]);
                f = f + 1;
            }
            samples.push(plane);
            c = c + 1;
        }
        let r = AudioBuffer { samples, sample_rate, channels };
        assert(r.samples@[0]@.len() == frames);
        r
    }

    /// Frames `start..end` of every channel, interleaved frame by frame:
    /// frame `f` of channel `c` lands at `(f - start) * channels + c`.
    pub fn interleave_frames(&self, start: usize, end: usize) -> (r: Vec<S>)
        requires
            self.wf(),
            start <= end <= self.frames(),
            (end - start) * self.channels <= usize::MAX,
        ensures
            r@.len() == (end - start) * self.channels,
            forall|f: int, c: int|
                start <= f < end && 0 <= c < self.channels ==> r@[(f - start) * self.channels + c]
                    == #[trigger] self.samples@[c]@[f],
    {
        let ch = self.channels;
        let mut r: Vec<S> = Vec::new();
        let mut f: usize = start;
        while f < end
            invariant
                self.wf(),
                ch == self.channels,
                start <= f <= end <= self.frames(),
                (end - start) * ch <= usize::MAX,
                r@.len() == (f - start) * ch,
                forall|g: int, c: int|
                    start <= g < f && 0 <= c < ch ==> r@[(g - start) * ch + c]
                        == #[trigger] self.samples@[c]@[g],
            decreases end - f,
        {
            let mut c: usize = 0;
            let ghost base = r@.len();
            while c < ch
                invariant
                    self.wf(),
                    ch == self.channels,
                    start <= f < end <= self.frames(),
                    base == (f - start) * ch,
                    0 <= c <= ch,
                    r@.len() == base + c,
                    forall|g: int, d: int|
                        start <= g < f && 0 <= d < ch ==> r@[(g - start) * ch + d]
                            == #[trigger] self.samples@[d]@[g],
                    forall|d: int| 0 <= d < c ==> r@[base + d] == #[trigger] self.samples@[d]@[f as int],
                decreases ch - c,
            {
                assert(self.samples@[c as int]@.len() == self.samples@[0]@.len());
                let x = self.samples[c][f];
                let ghost old_r = r@;
                r.push(x);
                proof {
                    assert forall|g: int, d: int| start <= g < f && 0 <= d < ch implies r@[(g - start)
                        * ch + d] == #[trigger] self.samples@[d]@[g] by {
                        lemma_frame_index(g - start, d, f - start, ch as int);
                        assert(r@[(g - start) * ch + d] == old_r[(g - start) * ch + d]);
                    }
                }
                c = c + 1;
            }
            proof {
                assert forall|g: int, c: int| start <= g < f + 1 && 0 <= c < ch implies r@[(g - start)
                    * ch + c] == #[trigger] self.samples@[c]@[g] by {
                    if g == f {
                        assert((g - start) * ch + c == base + c);
                    }
                }
                assert((f + 1 - start) * ch == (f - start) * ch + ch) by (nonlinear_arith);
            }
            f = f + 1;
        }
        r
    }

    /// Keeps frames `start..end` of every channel and drops the rest.
    pub fn keep_frames(&mut self, start: usize, end: usize)
        requires
            old(self).wf(),
            start <= end <= old(self).frames(),
        ensures
            final(self).wf(),
            final(self).channels == old(self).channels,
            final(self).sample_rate == old(self).sample_rate,
            final(self).frames() == end - start,
            forall|c: int|
                0 <= c < old(self).channels ==> (#[trigger] final(self).samples@[c])@ == old(
                    self,
                ).samples@[c]@.subrange(start as int, end as int),
    {
        let ch = self.channels;
        let mut c: usize = 0;
        while c < ch
            invariant
                ch == self.channels == old(self).channels,
                self.sample_rate == old(self).sample_rate,
                self.samples@.len() == ch,
                old(self).wf(),
                start <= end <= old(self).frames(),
                0 <= c <= ch,
                forall|k: int|
                    0 <= k < ch ==> (#[trigger] self.samples@[k])@ == if k < c {
                        old(self).samples@[k]@.subrange(start as int, end as int)
                    } else {
                        old(self).samples@[k]@
                    },
            decreases ch - c,
        {
            assert(old(self).samples@[c as int]@.len() == old(self).samples@[0]@.len());
            let mut v: Vec<S> = Vec::new();
            let mut f: usize = start;
            while f < end
                invariant
                    ch == self.channels == old(self).channels,
                    self.samples@.len() == ch,
                    0 <= c < ch,
                    start <= f <= end <= self.samples@[c as int]@.len(),
                    self.samples@[c as int]@ == old(self).samples@[c as int]@,
                    v@ == self.samples@[c as int]@.subrange(start as int, f as int),
                decreases end - f,
            {
                let x = self.samples[c][f];
                v.push(x);
                assert(self.samples@[c as int]@.subrange(start as int, f + 1) =~= v@);
                f = f + 1;
            }
            self.samples.set(c, v);
            c = c + 1;
        }
        proof {
            if ch > 0 {
                assert(self.samples@[0]@.len() == end - start);
                assert forall|k: int| 0 <= k < ch implies (#[trigger] self.samples@[k])@.len()
                    == end - start by {
                    assert(old(self).samples@[k]@.len() == old(self).samples@[0]@.len());
                }
            }
        }
    }
}

/// The integer full scale of a linear PCM container at `bits` per sample:
/// a sample `x` in [-1, 1] is written as `x * scale`, rounded.
pub open spec fn full_scale_of(bits: u16) -> Option<u32> {
    if bits == 16 {
        Some(32767u32)
    } else if bits == 24 {
        Some(8388607u32)
    } else if bits == 32 {
        Some(2147483647u32)
    } else {
        None
    }
}

/// The integer full scale for a bit depth that linear encoding supports
/// (16, 24 or 32); `None` for any other depth, which encoding refuses.
pub fn pcm_full_scale(bits: u16) -> (r: Option<u32>)
    ensures
        r == full_scale_of(bits),
{
    match bits {
        16 => Some(32767),
        24 => Some(8388607),
        32 => Some(2147483647),
        _ => None,
    }
}

/// How the samples of a WAV file become floats in [-1, 1].
#[derive(Debug, Clone, Copy, PartialEq, Eq, Structural)]
pub enum WavSamples {
    /// Read as 16-bit integers and divided by `divisor`.
    Int16 { divisor: u32 },
    /// Read as 32-bit integers (24 or 32 bits used) and divided by `divisor`.
    Int32 { divisor: u32 },
    /// Read as floats and taken as they are.
    Float,
}

/// The reading of a WAV file with float samples or `bits`-bit integers:
/// 16-bit over 32768, 24-bit over 8388608, 32-bit over 2147483648, float of
/// any width as it is; `None` for any other integer width.
pub open spec fn wav_samples_of(is_float: bool, bits: u16) -> Option<WavSamples> {
    if is_float {
        Some(WavSamples::Float)
    } else if bits == 16 {
        Some(WavSamples::Int16 { divisor: 32768u32 })
    } else if bits == 24 {
        Some(WavSamples::Int32 { divisor: 8388608u32 })
    } else if bits == 32 {
        Some(WavSamples::Int32 { divisor: 2147483648u32 })
    } else {
        None
    }
}

/// How to read the samples of a WAV file; `None` where reading refuses it.
pub fn wav_samples(is_float: bool, bits: u16) -> (r: Option<WavSamples>)
    ensures
        r == wav_samples_of(is_float, bits),
{
    if is_float {
        Some(WavSamples::Float)
    } else if bits == 16 {
        Some(WavSamples::Int16 { divisor: 32768 })
    } else if bits == 24 {
        Some(WavSamples::Int32 { divisor: 8388608 })
    } else if bits == 32 {
        Some(WavSamples::Int32 { divisor: 2147483648 })
    } else {
        None
    }
}

/// Frame `a` comes wholly before frame `b` in an interleaved layout.
proof fn lemma_frame_index(a: int, d: int, b: int, ch: int)
    requires
        0 <= a < b,
        0 <= d < ch,
    ensures
        0 <= a * ch + d < b * ch,
{
    assert(a * ch + d < b * ch) by (nonlinear_arith)
        requires
            0 <= a < b,
            0 <= d < ch,
    ;
    assert(0 <= a * ch) by (nonlinear_arith)
        requires
            0 <= a,
            0 <= d < ch,
    ;
}

} // verus!
