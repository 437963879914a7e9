//! Bounded hand-off of audio samples from the real-time producer to the
//! polling consumer.
//!
//! The producer pushes multi-channel frames; they are downmixed to mono and
//! appended, and the buffer keeps only the most recent half second so memory
//! stays bounded no matter how slowly the consumer polls. The consumer reads
//! the most recent window and only when fresh data arrived since its last
//! read. The buffer itself is sequential; the audio layer serializes access
//! around it with a mutual-exclusion region.

use vstd::prelude::*;
use vstd::arithmetic::div_mod::{lemma_div_is_ordered, lemma_div_multiples_vanish};

verus! {

/// Full scale of a fixed-point audio sample: 1.0 is `16384`.
pub const SAMPLE_ONE: i32 = 16384;

/// Sum of `n` consecutive samples starting at `start`.
pub open spec fn spec_sum(s: Seq<i32>, start: int, n: nat) -> int
    decreases n,
{
    if n == 0 {
        0
    } else {
        spec_sum(s, start, (n - 1) as nat) + s[start + n - 1]
    }
}

/// Integer division truncating toward zero, as the hardware division does.
pub open spec fn trunc_div(a: int, b: int) -> int {
    if a >= 0 {
        a / b
    } else {
        -((-a) / b)
    }
}

/// The mono downmix of frame `k`: the truncated average of its channels.
pub open spec fn spec_mono_at(s: Seq<i32>, channels: int, k: int) -> int {
    trunc_div(spec_sum(s, k * channels, channels as nat), channels)
}

/// The mono downmix of a whole multi-channel buffer.
pub open spec fn spec_mono(s: Seq<i32>, channels: int) -> Seq<int> {
    Seq::new((s.len() as int / channels) as nat, |k: int| spec_mono_at(s, channels, k))
}

/// Capture buffer: bounded retention, mono samples, a fresh-data flag.
pub struct CaptureBuffer {
    /// Mono samples, oldest first.
    pub samples: Vec<i32>,
    /// Whether samples arrived since the last read.
    pub fresh: bool,
    /// Retention ceiling: about half a second of audio.
    pub max_samples: usize,
}

impl CaptureBuffer {
    /// The retention ceiling holds and every stored sample is in range.
    pub open spec fn wf(&self) -> bool {
        &&& 1 <= self.max_samples <= 1000000
        &&& self.samples@.len() <= self.max_samples
        &&& forall|i: int|
            0 <= i < self.samples@.len() ==> -16384 <= #[trigger] self.samples@[i] <= 16384
    }

    /// Create a buffer that retains about half a second of audio at the
    /// given sample rate.
    pub fn new(sample_rate: u32) -> (b: Self)
        requires
            sample_rate <= 2000000,
        ensures
            b.wf(),
            b.samples@.len() == 0,
            !b.fresh,
            sample_rate >= 2 ==> b.max_samples == sample_rate / 2,
    {
        let half = sample_rate / 2;
        let max_samples: usize = if half < 1 {
            1
        } else {
            half as usize
        };
        CaptureBuffer { samples: Vec::new(), fresh: false, max_samples }
    }

    /// Downmix a multi-channel frame buffer to mono, append it, and drop
    /// the oldest samples beyond the retention ceiling. Sets the fresh-data
    /// flag. The samples kept are exactly the most recent `max_samples` of
    /// the previous contents followed by the new mono samples.
    pub fn push(&mut self, frame: &Vec<i32>, channels: usize)
        requires
            old(self).wf(),
            1 <= channels <= 64,
            frame@.len() as int % channels as int == 0,
            frame@.len() <= 1000000,
            forall|i: int| 0 <= i < frame@.len() ==> -16384 <= #[trigger] frame@[i] <= 16384,
        ensures
            final(self).wf(),
            final(self).max_samples == old(self).max_samples,
            final(self).fresh,
            ({
                let combined = old(self).samples@.map_values(|x: i32| x as int) + spec_mono(
                    frame@,
                    channels as int,
                );
                let keep = if combined.len() <= old(self).max_samples {
                    combined.len() as int
                } else {
                    old(self).max_samples as int
                };
                final(self).samples@.map_values(|x: i32| x as int) == combined.subrange(
                    combined.len() - keep,
                    combined.len() as int,
                )
            }),
    {
        let ghost old_samples = self.samples@;
        let frames: usize = frame.len() / channels;
        proof {
            assert(frames * channels == frame@.len()) by (nonlinear_arith)
                requires
                    frames == frame@.len() as int / channels as int,
                    frame@.len() as int % channels as int == 0,
                    channels >= 1;
        }
        let mut k: usize = 0;
        while k < frames
            invariant
                self.max_samples == old(self).max_samples,
                self.fresh == old(self).fresh,
                1 <= channels <= 64,
                frames == frame@.len() as int / channels as int,
                frames * channels == frame@.len(),
                frame@.len() <= 1000000,
                forall|i: int| 0 <= i < frame@.len() ==> -16384 <= #[trigger] frame@[i] <= 16384,
                k <= frames,
                self.samples@.len() == old_samples.len() + k,
                forall|i: int|
                    0 <= i < old_samples.len() ==> #[trigger] self.samples@[i] == old_samples[i],
                forall|i: int|
                    0 <= i < k ==> #[trigger] self.samples@[old_samples.len() + i] as int
                        == spec_mono_at(frame@, channels as int, i),
                forall|i: int|
                    0 <= i < self.samples@.len() ==> -16384 <= #[trigger] self.samples@[i]
                        <= 16384,
                old_samples.len() <= 1000000,
            decreases frames - k,
        {
            proof {
                assert(k * channels + channels <= frames * channels) by (nonlinear_arith)
                    requires
                        k < frames,
                        channels >= 1;
                assert(k * channels >= 0) by (nonlinear_arith)
                    requires
                        k >= 0,
                        channels >= 0;
            }
            let base: usize = k * channels;
            let mut sum: i64 = 0;
            let mut c: usize = 0;
            while c < channels
                invariant
                    1 <= channels <= 64,
                    c <= channels,
                    base + channels <= frame@.len(),
                    frame@.len() <= 1000000,
                    forall|i: int|
                        0 <= i < frame@.len() ==> -16384 <= #[trigger] frame@[i] <= 16384,
                    sum == spec_sum(frame@, base as int, c as nat),
                    -(c as int) * 16384 <= sum <= (c as int) * 16384,
                decreases channels - c,
            {
                proof {
                    assert((c + 1) as int * 16384 == c as int * 16384 + 16384) by (nonlinear_arith);
                }
                sum = sum + frame[base + c] as i64;
                c = c + 1;
            }
            proof {
                assert(channels as int * 16384 <= 64 * 16384) by (nonlinear_arith)
                    requires
                        channels <= 64;
            }
            let mono: i64 = if sum >= 0 {
                ((sum as u64) / (channels as u64)) as i64
            } else {
                -((((-sum) as u64) / (channels as u64)) as i64)
            };
            proof {
                let cc = channels as int;
                if sum >= 0 {
                    lemma_div_is_ordered(sum as int, cc * 16384, cc);
                    lemma_div_multiples_vanish(16384, cc);
                    vstd::arithmetic::div_mod::lemma_div_pos_is_pos(sum as int, cc);
                } else {
                    lemma_div_is_ordered(-(sum as int), cc * 16384, cc);
                    lemma_div_multiples_vanish(16384, cc);
                    vstd::arithmetic::div_mod::lemma_div_pos_is_pos(-(sum as int), cc);
                }
                assert(-16384 <= mono <= 16384);
                assert(mono == spec_mono_at(frame@, channels as int, k as int));
            }
            self.samples.push(mono as i32);
            k = k + 1;
        }

        let ghost untrimmed = self.samples@;
        proof {
            let combined = old(self).samples@.map_values(|x: i32| x as int) + spec_mono(
                frame@,
                channels as int,
            );
            assert(spec_mono(frame@, channels as int).len() == frames);
            assert forall|j: int| 0 <= j < untrimmed.len() implies #[trigger] untrimmed[j] as int
                == combined[j] by {
                if j < old_samples.len() {
                    assert(untrimmed[j] == old_samples[j]);
                } else {
                    let i = j - old_samples.len();
                    assert(self.samples@[old_samples.len() + i] as int == spec_mono_at(
                        frame@,
                        channels as int,
                        i,
                    ));
                }
            };
        }
        // Trim from the front if the ceiling is exceeded.
        if self.samples.len() > self.max_samples {
            let excess: usize = self.samples.len() - self.max_samples;
            let mut kept: Vec<i32> = Vec::new();
            let mut i: usize = excess;
            while i < self.samples.len()
                invariant
                    excess <= i <= self.samples@.len(),
                    kept@.len() == i - excess,
                    forall|m: int|
                        0 <= m < kept@.len() ==> #[trigger] kept@[m] == self.samples@[excess + m],
                decreases self.samples@.len() - i,
            {
                kept.push(self.samples[i]);
                i = i + 1;
            }
            self.samples = kept;
        }
        self.fresh = true;
        proof {
            let combined = old(self).samples@.map_values(|x: i32| x as int) + spec_mono(
                frame@,
                channels as int,
            );
            let keep = if combined.len() <= old(self).max_samples {
                combined.len() as int
            } else {
                old(self).max_samples as int
            };
            assert(spec_mono(frame@, channels as int).len() == frames);
            assert(combined.len() == untrimmed.len());
            assert(self.samples@.len() == keep);
            assert forall|m: int| 0 <= m < keep implies #[trigger] self.samples@[m] as int
                == combined[combined.len() - keep + m] by {
                assert(self.samples@[m] == untrimmed[untrimmed.len() - keep + m]);
            };
            assert(self.samples@.map_values(|x: i32| x as int) =~= combined.subrange(
                combined.len() - keep,
                combined.len() as int,
            ));
        }
    }

    /// Read the most recent window of samples, up to `max_out` of them.
    /// Returns an empty vector if nothing fresh arrived since the last
    /// read, and clears the fresh-data flag otherwise. The stored samples
    /// are not changed.
    pub fn read(&mut self, max_out: usize) -> (out: Vec<i32>)
        requires
            old(self).wf(),
        ensures
            final(self).wf(),
            final(self).samples@ == old(self).samples@,
            final(self).max_samples == old(self).max_samples,
            !final(self).fresh,
            !old(self).fresh ==> out@.len() == 0,
            old(self).fresh ==> ({
                let n = if max_out <= old(self).samples@.len() {
                    max_out as int
                } else {
                    old(self).samples@.len() as int
                };
                out@ == old(self).samples@.subrange(
                    old(self).samples@.len() - n,
                    old(self).samples@.len() as int,
                )
            }),
    {
        if !self.fresh {
            return Vec::new();
        }
        let available = self.samples.len();
        let n = if max_out < available {
            max_out
        } else {
            available
        };
        let start = available - n;
        let mut out: Vec<i32> = Vec::new();
        let mut i: usize = start;
        while i < available
            invariant
                start <= i <= available,
                available == self.samples@.len(),
                out@.len() == i - start,
                forall|m: int|
                    0 <= m < out@.len() ==> #[trigger] out@[m] == self.samples@[start + m],
            decreases available - i,
        {
            out.push(self.samples[i]);
            i = i + 1;
        }
        self.fresh = false;
        proof {
            let n2 = if max_out <= old(self).samples@.len() {
                max_out as int
            } else {
                old(self).samples@.len() as int
            };
            assert(out@ =~= old(self).samples@.subrange(
                old(self).samples@.len() - n2,
                old(self).samples@.len() as int,
            ));
        }
        out
    }

    /// Number of samples currently retained.
    pub fn len(&self) -> (n: usize)
        ensures
            n == self.samples@.len(),
    {
        self.samples.len()
    }

    /// Whether fresh data arrived since the last read.
    pub fn has_fresh_data(&self) -> (r: bool)
        ensures
            r == self.fresh,
    {
        self.fresh
    }
}

} // verus!
