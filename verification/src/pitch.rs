//! Difference-function (YIN-family) pitch estimation on a window of mono
//! fixed-point samples.
//!
//! For each candidate lag the squared-difference function is computed, then
//! normalized by its cumulative mean; the first lag under the threshold that
//! is also a local minimum wins, with the global minimum as fallback; the
//! chosen lag is refined by parabolic interpolation. Normalized values are
//! compared as exact rationals, so the contract pins every branch.

use vstd::prelude::*;
use vstd::arithmetic::div_mod::{lemma_div_is_ordered, lemma_div_multiples_vanish};

verus! {

/// Lowest frequency reported, in millihertz (about the lowest piano string).
pub const MIN_FREQ_MILLIHZ: u64 = 20000;

/// Highest frequency reported, in millihertz.
pub const MAX_FREQ_MILLIHZ: u64 = 5000000;

/// Pitch detection result.
#[derive(Debug, Clone, Copy, PartialEq, Eq, Structural)]
pub struct PitchResult {
    /// Detected frequency in millihertz.
    pub frequency: u64,
    /// Confidence score in thousandths (0 to 1000).
    pub confidence: u32,
}

/// Sum of squared differences over the first `n` positions at lag `tau`.
pub open spec fn diff_sum(s: Seq<i32>, tau: int, n: nat) -> int
    decreases n,
{
    if n == 0 {
        0
    } else {
        diff_sum(s, tau, (n - 1) as nat) + (s[n - 1] - s[n - 1 + tau]) * (s[n - 1] - s[n - 1
            + tau])
    }
}

/// The squared-difference function `d(tau)` over the whole window.
pub open spec fn diff_at(s: Seq<i32>, tau: int) -> int {
    diff_sum(s, tau, (s.len() - tau) as nat)
}

/// Cumulative sum of the difference function over lags `1..=tau`.
pub open spec fn cum_at(s: Seq<i32>, tau: int) -> int
    decreases tau,
{
    if tau <= 0 {
        0
    } else {
        cum_at(s, tau - 1) + diff_at(s, tau)
    }
}

/// Numerator of the cumulative-mean-normalized difference `d'(tau)`
/// expressed as the exact rational `dn_num / dn_den`; when the cumulative
/// sum is zero the value is guarded to one, so a degenerate lag is never a
/// minimum.
pub open spec fn dn_num(s: Seq<i32>, tau: int) -> int {
    if cum_at(s, tau) == 0 {
        1
    } else {
        diff_at(s, tau) * tau
    }
}

/// Denominator of the normalized difference; see [`dn_num`].
pub open spec fn dn_den(s: Seq<i32>, tau: int) -> int {
    if cum_at(s, tau) == 0 {
        1
    } else {
        cum_at(s, tau)
    }
}

/// `d'(tau) < threshold / 1000`, compared as exact rationals.
pub open spec fn below_threshold(s: Seq<i32>, tau: int, theta: int) -> bool {
    dn_num(s, tau) * 1000 < theta * dn_den(s, tau)
}

/// `d'(tau) <= d'(tau + 1)`: the lag is a local minimum.
pub open spec fn local_min_at(s: Seq<i32>, tau: int) -> bool {
    dn_num(s, tau) * dn_den(s, tau + 1) <= dn_num(s, tau + 1) * dn_den(s, tau)
}

/// `d'(a) < d'(b)`, compared as exact rationals.
pub open spec fn dn_strictly_less(s: Seq<i32>, a: int, b: int) -> bool {
    dn_num(s, a) * dn_den(s, b) < dn_num(s, b) * dn_den(s, a)
}

/// A lag qualifies if it is under the threshold and a local minimum.
pub open spec fn qualifies(s: Seq<i32>, tau: int, theta: int) -> bool {
    below_threshold(s, tau, theta) && local_min_at(s, tau)
}

/// The first qualifying lag in `tau..hi`, or `-1` if none qualifies.
pub open spec fn find_first(s: Seq<i32>, theta: int, tau: int, hi: int) -> int
    decreases (if hi - tau >= 0 { hi - tau } else { 0 }),
{
    if tau >= hi {
        -1
    } else if qualifies(s, tau, theta) {
        tau
    } else {
        find_first(s, theta, tau + 1, hi)
    }
}

/// The lag of the strictly smallest normalized difference over
/// `best` and `tau..hi`, earliest lag on ties.
pub open spec fn global_min(s: Seq<i32>, tau: int, hi: int, best: int) -> int
    decreases (if hi - tau >= 0 { hi - tau } else { 0 }),
{
    if tau >= hi {
        best
    } else {
        global_min(
            s,
            tau + 1,
            hi,
            if dn_strictly_less(s, tau, best) {
                tau
            } else {
                best
            },
        )
    }
}

/// The normalized difference at `tau` in fixed point, scaled by `1 << 20`.
pub open spec fn y_at(s: Seq<i32>, tau: int) -> int {
    dn_num(s, tau) * 1048576 / dn_den(s, tau)
}

/// The frequency in millihertz for the chosen lag, refined by parabolic
/// interpolation over the scaled normalized differences of the lag and its
/// neighbors; the refinement is skipped at the lowest lag, on flat or
/// inverted curvature, and when the vertex falls more than one lag away.
pub open spec fn spec_freq_from(s: Seq<i32>, sr: int, tau0: int) -> int {
    if tau0 < 2 {
        sr * 1000 / tau0
    } else {
        let y0 = y_at(s, tau0);
        let ym = y_at(s, tau0 - 1);
        let yp = y_at(s, tau0 + 1);
        let curv = ym + yp - 2 * y0;
        let delta = ym - yp;
        if curv > 0 && -2 * curv < delta && delta < 2 * curv {
            sr * 1000 * 2 * curv / (2 * curv * tau0 + delta)
        } else {
            sr * 1000 / tau0
        }
    }
}

/// Confidence: `1 - d'(tau)` at the integer lag, in thousandths, clamped.
pub open spec fn spec_confidence(s: Seq<i32>, tau0: int) -> int {
    let q = dn_num(s, tau0) * 1000 / dn_den(s, tau0);
    if q > 1000 {
        0
    } else {
        1000 - q
    }
}

/// The greatest lag examined: bounded by half the window and by the lowest
/// piano frequency of 27.5 Hz.
pub open spec fn spec_tau_max(s: Seq<i32>, sr: int) -> int {
    let by_rate = sr * 2 / 55;
    let by_window = s.len() as int / 2;
    if by_window <= by_rate {
        by_window
    } else {
        by_rate
    }
}

/// The full estimate: `None` for a window too short for any lag, an
/// all-silent window, or a result outside the instrument range; otherwise
/// the frequency in millihertz and the confidence in thousandths.
pub open spec fn spec_detect(s: Seq<i32>, sr: int, theta: int) -> Option<(int, int)> {
    let t_max = spec_tau_max(s, sr);
    if t_max < 2 {
        None
    } else if cum_at(s, t_max) == 0 {
        None
    } else {
        let ff = find_first(s, theta, 1, t_max);
        let tau0 = if ff >= 1 {
            ff
        } else {
            global_min(s, 2, t_max, 1)
        };
        let f = spec_freq_from(s, sr, tau0);
        if 20000 <= f <= 5000000 {
            Some((f, spec_confidence(s, tau0)))
        } else {
            None
        }
    }
}

/// Any product of two 64-bit values fits in 128 bits.
proof fn lemma_u64_mul_fits(a: u64, b: u64)
    ensures
        0 <= (a as int) * (b as int) <= 340282366920938463426481119284349108225int,
{
    assert(0 <= (a as int) * (b as int) <= 340282366920938463426481119284349108225int)
        by (nonlinear_arith)
        requires
            0 <= a <= 18446744073709551615u64,
            0 <= b <= 18446744073709551615u64;
}

/// YIN-family pitch detector.
pub struct PitchDetector {
    /// Sample rate in hertz.
    pub sample_rate: u32,
    /// Absolute threshold on the normalized difference, in thousandths.
    pub threshold: u32,
}

impl PitchDetector {
    /// A supported sample rate and a meaningful threshold.
    pub open spec fn wf(&self) -> bool {
        &&& 200 <= self.sample_rate <= 200000
        &&& 1 <= self.threshold <= 1000
    }

    /// Create a new pitch detector with the default threshold of 0.1.
    pub fn new(sample_rate: u32) -> (r: Self)
        requires
            200 <= sample_rate <= 200000,
        ensures
            r.sample_rate == sample_rate,
            r.threshold == 100,
            r.wf(),
    {
        PitchDetector { sample_rate, threshold: 100 }
    }

    /// Set the detection threshold, in thousandths of the normalized
    /// difference.
    pub fn with_threshold(self, threshold: u32) -> (r: Self)
        requires
            1 <= threshold <= 1000,
        ensures
            r.sample_rate == self.sample_rate,
            r.threshold == threshold,
            self.wf() ==> r.wf(),
    {
        PitchDetector { sample_rate: self.sample_rate, threshold }
    }

    /// Detect the fundamental frequency of a window of mono samples. The
    /// window holds at most 65536 samples, each within the fixed-point full
    /// scale; both bounds keep the squared-difference sums inside their
    /// integer ranges.
    pub fn detect(&self, samples: &Vec<i32>) -> (r: Option<PitchResult>)
        requires
            self.wf(),
            samples@.len() <= 65536,
            forall|i: int| 0 <= i < samples@.len() ==> -16384 <= #[trigger] samples@[i] <= 16384,
        ensures
            match spec_detect(samples@, self.sample_rate as int, self.threshold as int) {
                Some(fc) => match r {
                    Some(p) => p.frequency == fc.0 && p.confidence == fc.1,
                    None => false,
                },
                None => r is None,
            },
    {
        let ghost s = samples@;
        let w: usize = samples.len();
        let by_rate: usize = (self.sample_rate as usize) * 2 / 55;
        let by_window: usize = w / 2;
        let t_max: usize = if by_window <= by_rate {
            by_window
        } else {
            by_rate
        };
        assert(t_max == spec_tau_max(s, self.sample_rate as int));
        assert(t_max <= 32768);
        if t_max < 2 {
            return None;
        }

        // The squared-difference function for each lag.
        let mut d: Vec<u64> = Vec::new();
        d.push(0);
        let mut tau: usize = 1;
        while tau <= t_max
            invariant
                2 <= t_max <= 32768,
                2 * t_max <= w,
                s == samples@,
                w == s.len(),
                w <= 65536,
                forall|i: int| 0 <= i < s.len() ==> -16384 <= #[trigger] s[i] <= 16384,
                1 <= tau <= t_max + 1,
                d@.len() == tau,
                forall|t: int| 1 <= t < tau ==> #[trigger] d@[t] == diff_at(s, t),
                forall|t: int| 0 <= t < tau ==> #[trigger] d@[t] <= 70368744177664,
            decreases t_max + 1 - tau,
        {
            let n: usize = w - tau;
            let mut sum: u64 = 0;
            let mut i: usize = 0;
            while i < n
                invariant
                    s == samples@,
                    w == s.len(),
                    w <= 65536,
                    tau + n == w,
                    1 <= tau,
                    forall|k: int| 0 <= k < s.len() ==> -16384 <= #[trigger] s[k] <= 16384,
                    i <= n,
                    sum == diff_sum(s, tau as int, i as nat),
                    sum <= i as int * 1073741824,
                decreases n - i,
            {
                proof {
                    assert((i + 1) as int * 1073741824 == i as int * 1073741824 + 1073741824)
                        by (nonlinear_arith);
                }
                let a = samples[i];
                let b = samples[i + tau];
                let df: i64 = (a as i64) - (b as i64);
                proof {
                    assert(df * df <= 1073741824) by (nonlinear_arith)
                        requires
                            -32768 <= df <= 32768;
                    assert(df * df >= 0) by (nonlinear_arith);
                }
                let sq: u64 = (df * df) as u64;
                sum = sum + sq;
                i = i + 1;
            }
            proof {
                assert(sum <= 65536int * 1073741824) by (nonlinear_arith)
                    requires
                        sum <= n as int * 1073741824,
                        n <= 65536;
            }
            d.push(sum);
            tau = tau + 1;
        }

        // The cumulative sums over lags 1..=t_max.
        let mut cum: Vec<u64> = Vec::new();
        cum.push(0);
        let mut tau2: usize = 1;
        while tau2 <= t_max
            invariant
                2 <= t_max <= 32768,
                d@.len() == t_max + 1,
                forall|t: int| 1 <= t <= t_max ==> #[trigger] d@[t] == diff_at(s, t),
                forall|t: int| 0 <= t <= t_max ==> #[trigger] d@[t] <= 70368744177664,
                1 <= tau2 <= t_max + 1,
                cum@.len() == tau2,
                forall|t: int| 0 <= t < tau2 ==> #[trigger] cum@[t] == cum_at(s, t),
                forall|t: int| 0 <= t < tau2 ==> #[trigger] cum@[t] <= t * 70368744177664,
            decreases t_max + 1 - tau2,
        {
            proof {
                assert(tau2 as int * 70368744177664 == (tau2 - 1) as int * 70368744177664
                    + 70368744177664) by (nonlinear_arith);
                assert(tau2 as int * 70368744177664 <= 32768int * 70368744177664)
                    by (nonlinear_arith)
                    requires
                        tau2 <= 32768;
            }
            let prev = cum[tau2 - 1];
            let next = prev + d[tau2];
            cum.push(next);
            tau2 = tau2 + 1;
        }
        proof {
            assert forall|t: int| 0 <= t <= t_max implies #[trigger] cum@[t]
                <= 2305843009213693952 by {
                assert(cum@[t] <= t * 70368744177664);
                assert(t * 70368744177664 <= 32768int * 70368744177664) by (nonlinear_arith)
                    requires
                        t <= 32768;
            };
        }

        // An all-silent window: every difference is zero.
        if cum[t_max] == 0 {
            return None;
        }

        // Scan for the first lag under the threshold that is a local
        // minimum.
        let mut found: usize = 0;
        let mut has_found = false;
        let mut tau3: usize = 1;
        while tau3 < t_max && !has_found
            invariant
                2 <= t_max <= 32768,
                d@.len() == t_max + 1,
                cum@.len() == t_max + 1,
                forall|t: int| 1 <= t <= t_max ==> #[trigger] d@[t] == diff_at(s, t),
                forall|t: int| 0 <= t <= t_max ==> #[trigger] d@[t] <= 70368744177664,
                forall|t: int| 0 <= t <= t_max ==> #[trigger] cum@[t] == cum_at(s, t),
                forall|t: int| 0 <= t <= t_max ==> #[trigger] cum@[t] <= 2305843009213693952,
                1 <= self.threshold <= 1000,
                1 <= tau3 <= t_max,
                !has_found ==> find_first(s, self.threshold as int, 1, t_max as int) == find_first(
                    s,
                    self.threshold as int,
                    tau3 as int,
                    t_max as int,
                ),
                has_found ==> 1 <= found < t_max && find_first(
                    s,
                    self.threshold as int,
                    1,
                    t_max as int,
                ) == found,
            decreases t_max - tau3, (if has_found { 0int } else { 1int }),
        {
            let (num0, den0) = Self::dn_parts(&d, &cum, tau3, Ghost(s), Ghost(t_max as int));
            let (num1, den1) = Self::dn_parts(&d, &cum, tau3 + 1, Ghost(s), Ghost(t_max as int));
            proof {
                lemma_u64_mul_fits(num0, 1000);
                lemma_u64_mul_fits(self.threshold as u64, den0);
                lemma_u64_mul_fits(num0, den1);
                lemma_u64_mul_fits(num1, den0);
            }
            let below = (num0 as u128) * 1000 < (self.threshold as u128) * (den0 as u128);
            let localmin = (num0 as u128) * (den1 as u128) <= (num1 as u128) * (den0 as u128);
            proof {
                assert(below == below_threshold(s, tau3 as int, self.threshold as int));
                assert(localmin == local_min_at(s, tau3 as int));
            }
            if below && localmin {
                found = tau3;
                has_found = true;
            } else {
                tau3 = tau3 + 1;
            }
        }
        proof {
            if !has_found {
                assert(find_first(s, self.threshold as int, tau3 as int, t_max as int) == -1);
            }
        }

        // Fall back to the global minimum over the scanned range.
        let tau0: usize;
        if has_found {
            tau0 = found;
        } else {
            let mut best: usize = 1;
            let mut tau4: usize = 2;
            while tau4 < t_max
                invariant
                    2 <= t_max <= 32768,
                    d@.len() == t_max + 1,
                    cum@.len() == t_max + 1,
                    forall|t: int| 1 <= t <= t_max ==> #[trigger] d@[t] == diff_at(s, t),
                    forall|t: int| 0 <= t <= t_max ==> #[trigger] d@[t] <= 70368744177664,
                    forall|t: int| 0 <= t <= t_max ==> #[trigger] cum@[t] == cum_at(s, t),
                    forall|t: int| 0 <= t <= t_max ==> #[trigger] cum@[t] <= 2305843009213693952,
                    2 <= tau4 <= t_max,
                    1 <= best < tau4,
                    global_min(s, tau4 as int, t_max as int, best as int) == global_min(
                        s,
                        2,
                        t_max as int,
                        1,
                    ),
                decreases t_max - tau4,
            {
                let (numb, denb) = Self::dn_parts(&d, &cum, best, Ghost(s), Ghost(t_max as int));
                let (numt, dent) = Self::dn_parts(&d, &cum, tau4, Ghost(s), Ghost(t_max as int));
                proof {
                    lemma_u64_mul_fits(numt, denb);
                    lemma_u64_mul_fits(numb, dent);
                }
                let less = (numt as u128) * (denb as u128) < (numb as u128) * (dent as u128);
                proof {
                    assert(less == dn_strictly_less(s, tau4 as int, best as int));
                }
                if less {
                    best = tau4;
                }
                tau4 = tau4 + 1;
            }
            tau0 = best;
        }
        assert(1 <= tau0 < t_max);
        proof {
            let ff = find_first(s, self.threshold as int, 1, t_max as int);
            if has_found {
                assert(ff == tau0);
            } else {
                assert(ff == -1);
                assert(tau0 == global_min(s, 2, t_max as int, 1));
            }
        }

        // Parabolic refinement and the frequency.
        let f: u64;
        if tau0 < 2 {
            f = (self.sample_rate as u64) * 1000 / (tau0 as u64);
        } else {
            let y0 = Self::y_scaled(&d, &cum, tau0, Ghost(s), Ghost(t_max as int));
            let ym = Self::y_scaled(&d, &cum, tau0 - 1, Ghost(s), Ghost(t_max as int));
            let yp = Self::y_scaled(&d, &cum, tau0 + 1, Ghost(s), Ghost(t_max as int));
            let curv: i128 = (ym as i128) + (yp as i128) - 2 * (y0 as i128);
            let delta: i128 = (ym as i128) - (yp as i128);
            assert(-68719476736 <= curv <= 68719476736);
            assert(-34359738368 <= delta <= 34359738368);
            if curv > 0 && (0 - delta) < 2 * curv && delta < 2 * curv {
                proof {
                    assert(curv <= 68719476736);
                    assert((self.sample_rate as int) * 1000 * (2 * (curv as int)) <= 200000int
                        * 1000 * 137438953472) by (nonlinear_arith)
                        requires
                            0 < self.sample_rate as int <= 200000,
                            0 < 2 * (curv as int) <= 137438953472;
                    assert(2 * (curv as int) * (tau0 as int) >= 2 * (2 * (curv as int)))
                        by (nonlinear_arith)
                        requires
                            curv > 0,
                            tau0 >= 2;
                    assert(2 * (curv as int) * (tau0 as int) <= 137438953472int * 32768)
                        by (nonlinear_arith)
                        requires
                            0 < 2 * (curv as int) <= 137438953472,
                            1 <= tau0 <= 32768;
                }
                let twocurv: u128 = (2 * curv) as u128;
                let numer: u128 = (self.sample_rate as u128) * 1000 * twocurv;
                let denom_i: i128 = 2 * curv * (tau0 as i128) + delta;
                proof {
                    assert(denom_i >= 2 * (curv as int));
                }
                let denom: u128 = denom_i as u128;
                let wide = numer / denom;
                proof {
                    // numer is exactly (sr * 1000) * (2 * curv), and the
                    // denominator is at least 2 * curv, so the quotient is
                    // at most sr * 1000.
                    assert(numer as int == (self.sample_rate as int * 1000) * (2 * (curv as int))
                        && numer as int == self.sample_rate as int * 1000 * 2 * (curv as int)
                        && numer as int == (2 * (curv as int)) * (self.sample_rate as int * 1000))
                        by (nonlinear_arith)
                        requires
                            numer as int == (self.sample_rate as int) * 1000 * (twocurv as int),
                            twocurv as int == 2 * (curv as int);
                    lemma_div_multiples_vanish(
                        self.sample_rate as int * 1000,
                        2 * (curv as int),
                    );
                    vstd::arithmetic::div_mod::lemma_div_is_ordered_by_denominator(
                        numer as int,
                        2 * (curv as int),
                        denom as int,
                    );
                    assert(wide <= self.sample_rate as int * 1000);
                }
                f = wide as u64;
            } else {
                f = (self.sample_rate as u64) * 1000 / (tau0 as u64);
            }
        }
        assert(f == spec_freq_from(s, self.sample_rate as int, tau0 as int));

        // Confidence at the integer lag.
        let (numc, denc) = Self::dn_parts(&d, &cum, tau0, Ghost(s), Ghost(t_max as int));
        proof {
            lemma_u64_mul_fits(numc, 1000);
        }
        let q: u128 = (numc as u128) * 1000 / (denc as u128);
        let confidence: u32 = if q > 1000 {
            0
        } else {
            1000 - (q as u32)
        };
        assert(confidence == spec_confidence(s, tau0 as int));

        if MIN_FREQ_MILLIHZ <= f && f <= MAX_FREQ_MILLIHZ {
            Some(PitchResult { frequency: f, confidence })
        } else {
            None
        }
    }

    /// The exact rational `d'(tau)` as a numerator and denominator pair,
    /// read from the precomputed tables.
    fn dn_parts(
        d: &Vec<u64>,
        cum: &Vec<u64>,
        tau: usize,
        Ghost(s): Ghost<Seq<i32>>,
        Ghost(t_max): Ghost<int>,
    ) -> (r: (u64, u64))
        requires
            2 <= t_max <= 32768,
            d@.len() == t_max + 1,
            cum@.len() == t_max + 1,
            forall|t: int| 1 <= t <= t_max ==> #[trigger] d@[t] == diff_at(s, t),
            forall|t: int| 0 <= t <= t_max ==> #[trigger] d@[t] <= 70368744177664,
            forall|t: int| 0 <= t <= t_max ==> #[trigger] cum@[t] == cum_at(s, t),
            forall|t: int| 0 <= t <= t_max ==> #[trigger] cum@[t] <= 2305843009213693952,
            1 <= tau <= t_max,
        ensures
            r.0 == dn_num(s, tau as int),
            r.1 == dn_den(s, tau as int),
            r.0 <= 2305843009213693952,
            1 <= r.1 <= 2305843009213693952,
    {
        let dt = d[tau];
        let ct = cum[tau];
        if ct == 0 {
            (1, 1)
        } else {
            proof {
                assert(dt as int * tau as int <= 70368744177664int * 32768) by (nonlinear_arith)
                    requires
                        dt <= 70368744177664,
                        tau <= 32768,
                        dt >= 0,
                        tau >= 0;
            }
            (dt * (tau as u64), ct)
        }
    }

    /// The normalized difference at `tau`, scaled by `1 << 20`; at most
    /// `tau << 20` because the cumulative sum dominates the difference.
    fn y_scaled(
        d: &Vec<u64>,
        cum: &Vec<u64>,
        tau: usize,
        Ghost(s): Ghost<Seq<i32>>,
        Ghost(t_max): Ghost<int>,
    ) -> (y: u64)
        requires
            2 <= t_max <= 32768,
            d@.len() == t_max + 1,
            cum@.len() == t_max + 1,
            forall|t: int| 1 <= t <= t_max ==> #[trigger] d@[t] == diff_at(s, t),
            forall|t: int| 0 <= t <= t_max ==> #[trigger] d@[t] <= 70368744177664,
            forall|t: int| 0 <= t <= t_max ==> #[trigger] cum@[t] == cum_at(s, t),
            forall|t: int| 0 <= t <= t_max ==> #[trigger] cum@[t] <= 2305843009213693952,
            1 <= tau <= t_max,
        ensures
            y == y_at(s, tau as int),
            y <= 34359738368,
    {
        let (num, den) = Self::dn_parts(d, cum, tau, Ghost(s), Ghost(t_max));
        proof {
            lemma_u64_mul_fits(num, 1048576);
            // num <= den * tau: either the guarded pair (1, 1), or
            // d * tau <= cum * tau since cum >= d >= 0.
            if cum_at(s, tau as int) == 0 {
                assert(num as int * 1048576 <= den as int * (tau as int * 1048576))
                    by (nonlinear_arith)
                    requires
                        num == 1,
                        den == 1,
                        tau >= 1;
            } else {
                assert(d@[tau as int] == diff_at(s, tau as int));
                assert(diff_at(s, tau as int) >= 0);
                assert(cum_at(s, tau as int) == cum_at(s, tau as int - 1) + diff_at(s, tau as int));
                assert(cum_at(s, tau as int - 1) == cum@[tau as int - 1]);
                assert(cum_at(s, tau as int - 1) >= 0);
                assert(num as int * 1048576 <= den as int * (tau as int * 1048576))
                    by (nonlinear_arith)
                    requires
                        num == diff_at(s, tau as int) * tau,
                        den == cum_at(s, tau as int),
                        diff_at(s, tau as int) >= 0,
                        tau >= 1,
                        den >= diff_at(s, tau as int),
                        den >= 1;
            }
            lemma_div_is_ordered(
                num as int * 1048576,
                den as int * (tau as int * 1048576),
                den as int,
            );
            lemma_div_multiples_vanish(tau as int * 1048576, den as int);
            assert(tau as int * 1048576 <= 34359738368) by (nonlinear_arith)
                requires
                    tau <= 32768;
        }
        let wide: u128 = (num as u128) * 1048576;
        let y = (wide / (den as u128)) as u64;
        y
    }
}

} // verus!
