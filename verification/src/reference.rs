//! Reference tone parameters. Synthesizing and playing the tone itself is
//! the audio output collaborator's concern; the library only fixes the
//! sample rate the tone is generated at.

use vstd::prelude::*;

verus! {

/// Reference tone generator settings.
pub struct ReferenceTone {
    /// Sample rate of the generated tone, in hertz.
    pub sample_rate: u32,
}

impl ReferenceTone {
    /// Create a new reference tone generator at a sample rate.
    pub fn new(sample_rate: u32) -> (r: Self)
        ensures
            r.sample_rate == sample_rate,
    {
        ReferenceTone { sample_rate }
    }

    /// The sample rate the tone is generated at, in hertz.
    pub fn sample_rate(&self) -> (r: u32)
        ensures
            r == self.sample_rate,
    {
        self.sample_rate
    }

    /// The number of samples in a tone of the given duration, given in
    /// milliseconds.
    pub fn sample_count(&self, duration_millis: u32) -> (n: u64)
        ensures
            n == (self.sample_rate as int) * (duration_millis as int) / 1000,
    {
        proof {
            assert((self.sample_rate as int) * (duration_millis as int) <= 4294967295int
                * 4294967295) by (nonlinear_arith)
                requires
                    0 <= self.sample_rate <= 4294967295,
                    0 <= duration_millis <= 4294967295;
        }
        (self.sample_rate as u64) * (duration_millis as u64) / 1000
    }
}

} // verus!
