//! Equal temperament conversions on fixed-point values.
//!
//! Frequencies are in millihertz, deviations in hundredths of a cent
//! (centicents). Semitone ratios and internal logarithm state are scaled by
//! `1 << 32`; frequency ratios returned by [`Temperament::cents_to_ratio`]
//! are scaled by `1 << 20`.

use vstd::prelude::*;
use vstd::arithmetic::power2::{pow2, lemma_pow2_adds, lemma_pow2_strictly_increases, lemma2_to64, lemma2_to64_rest};
use vstd::arithmetic::div_mod::{lemma_div_is_ordered, lemma_div_multiples_vanish, lemma_fundamental_div_mod_converse};

verus! {

/// Centicents in one octave: 1200 cents.
pub const OCTAVE_CENTICENTS: i64 = 120000;

/// The default A4 reference of 440 Hz, in millihertz.
pub const DEFAULT_A4_MILLIHZ: u64 = 440000;

/// Scale of ratios returned by `cents_to_ratio`: 1.0 is `1 << 20`.
pub const RATIO_ONE: u64 = 1048576;

/// The ratio `2^(s/12)` scaled by `1 << 32`, for a semitone offset `s` in
/// `0..12`; the entry for `s == 0` is exactly `1 << 32`.
pub open spec fn semitone_ratio(s: int) -> int {
    if s == 0 {
        4294967296
    } else if s == 1 {
        4550359342
    } else if s == 2 {
        4820937788
    } else if s == 3 {
        5107605667
    } else if s == 4 {
        5411319705
    } else if s == 5 {
        5733093519
    } else if s == 6 {
        6074001000
    } else if s == 7 {
        6435179895
    } else if s == 8 {
        6817835604
    } else if s == 9 {
        7223245206
    } else if s == 10 {
        7652761717
    } else {
        8107818609
    }
}

/// The power of two that scales `a4 * semitone_ratio(..)` down to the
/// frequency of `midi`: `2^(42 - (midi + 51) / 12)`. The offset 51 makes
/// the quotient constant across each octave that starts at A.
pub open spec fn octave_divisor(midi: int) -> int {
    let q = (midi + 51) / 12;
    if q <= 6 {
        68719476736
    } else if q == 7 {
        34359738368
    } else if q == 8 {
        17179869184
    } else if q == 9 {
        8589934592
    } else if q == 10 {
        4294967296
    } else if q == 11 {
        2147483648
    } else if q == 12 {
        1073741824
    } else {
        536870912
    }
}

/// The equal-tempered frequency of a MIDI note, in millihertz:
/// `a4 * 2^((midi - 69) / 12)` rounded down to the scale's resolution.
pub open spec fn spec_frequency(midi: int, a4: int) -> int {
    a4 * semitone_ratio((midi + 51) % 12) / octave_divisor(midi)
}

/// Repeated doubling until the value reaches `1 << 32`, tracking the octave
/// count; the binary-logarithm normalization step for values below one.
pub open spec fn norm_up(v: int, o: int) -> (int, int)
    decreases (if 4294967296 - v >= 0 { 4294967296 - v } else { 0 }),
{
    if 1 <= v < 4294967296 {
        norm_up(2 * v, o - 1)
    } else {
        (v, o)
    }
}

/// Repeated halving until the value drops below `1 << 33`, tracking the
/// octave count; the normalization step for values of one or more.
pub open spec fn norm_down(v: int, o: int) -> (int, int)
    decreases (if v >= 0 { v } else { 0 }),
{
    if v >= 8589934592 {
        norm_down(v / 2, o + 1)
    } else {
        (v, o)
    }
}

/// Normalize a positive scaled ratio into `[1 << 32, 1 << 33)`, returning
/// the normalized value and the integer part of its binary logarithm.
pub open spec fn spec_normalized(r: int) -> (int, int) {
    if r < 4294967296 {
        norm_up(r, 0)
    } else {
        norm_down(r, 0)
    }
}

/// `n` bits of the fractional part of the binary logarithm of `v / 2^32`,
/// most significant bit first, computed by repeated squaring. `v` must lie
/// in `[1 << 32, 1 << 33)`.
pub open spec fn log2_frac_bits(v: int, n: nat) -> int
    decreases n,
{
    if n == 0 {
        0
    } else {
        let sq = v * v;
        if sq >= 36893488147419103232int {
            pow2((n - 1) as nat) + log2_frac_bits(sq / 8589934592, (n - 1) as nat)
        } else {
            log2_frac_bits(sq / 4294967296, (n - 1) as nat)
        }
    }
}

/// The deviation of `f` from `t` in centicents: `1200 * log2(f / t)`,
/// computed to twenty fractional bits of the logarithm.
pub open spec fn spec_cents_from_target(f: int, t: int) -> int {
    let r0 = f * 4294967296 / t;
    let vo = spec_normalized(r0);
    vo.1 * 120000 + log2_frac_bits(vo.0, 20) * 120000 / 1048576
}

/// The ratio `2^(1 / 2^k)` scaled by `1 << 32`, for `k` in `1..=20`.
pub open spec fn exp2_step(k: int) -> int {
    if k == 1 {
        6074001000
    } else if k == 2 {
        5107605667
    } else if k == 3 {
        4683695048
    } else if k == 4 {
        4485121744
    } else if k == 5 {
        4389014833
    } else if k == 6 {
        4341736423
    } else if k == 7 {
        4318288544
    } else if k == 8 {
        4306612134
    } else if k == 9 {
        4300785774
    } else if k == 10 {
        4297875550
    } else if k == 11 {
        4296421177
    } else if k == 12 {
        4295694175
    } else if k == 13 {
        4295330720
    } else if k == 14 {
        4295149004
    } else if k == 15 {
        4295058149
    } else if k == 16 {
        4295012722
    } else if k == 17 {
        4294990009
    } else if k == 18 {
        4294978653
    } else if k == 19 {
        4294972974
    } else {
        4294970135
    }
}

/// `2^(frac / 2^20)` scaled by `1 << 32`, after processing the `k` most
/// significant of the twenty fractional bits by binary exponentiation.
pub open spec fn exp2_partial(frac: int, k: nat) -> int
    decreases k,
{
    if k == 0 {
        4294967296
    } else {
        let prev = exp2_partial(frac, (k - 1) as nat);
        let bit = (frac / pow2((20 - k) as nat) as int) % 2;
        if bit == 1 {
            prev * exp2_step(k as int) / 4294967296
        } else {
            prev
        }
    }
}

/// The frequency ratio `2^(cents / 1200)` scaled by `1 << 20`.
pub open spec fn spec_cents_to_ratio(cents: int) -> int {
    let oct = cents / 120000;
    let rem = cents % 120000;
    let frac = rem * 1048576 / 120000;
    let v = exp2_partial(frac, 20);
    if oct >= 0 {
        v * pow2(oct as nat) as int / 4096
    } else {
        v / (4096 * pow2((-oct) as nat) as int)
    }
}

/// Equal temperament calculator around a configurable A4 reference.
pub struct Temperament {
    /// Reference frequency for A4, in millihertz.
    pub a4: u64,
}

impl Temperament {
    /// The reference lies in the supported range of 100 Hz to 1 kHz, which
    /// keeps every piano key's frequency within the conversion range.
    pub open spec fn wf(&self) -> bool {
        100000 <= self.a4 <= 1000000
    }

    /// Create a new temperament with A4 = 440 Hz.
    pub fn new() -> (t: Self)
        ensures
            t.a4 == DEFAULT_A4_MILLIHZ,
            t.wf(),
    {
        Temperament { a4: 440000 }
    }

    /// Create a temperament with a custom A4 reference in millihertz.
    pub fn with_a4(a4: u64) -> (t: Self)
        requires
            100000 <= a4 <= 1000000,
        ensures
            t.a4 == a4,
            t.wf(),
    {
        Temperament { a4 }
    }

    /// Get the A4 reference frequency in millihertz.
    pub fn a4(&self) -> (r: u64)
        ensures
            r == self.a4,
    {
        self.a4
    }

    /// Calculate the frequency in millihertz for a given MIDI note number.
    pub fn frequency(&self, midi_note: u8) -> (f: u64)
        requires
            self.wf(),
            21 <= midi_note <= 108,
        ensures
            f == spec_frequency(midi_note as int, self.a4 as int),
    {
        let key: u64 = midi_note as u64 + 51;
        let s: u64 = key % 12;
        let q: u64 = key / 12;
        let ratio: u64 = Self::semitone_ratio_at(s);
        let divisor: u64 = Self::octave_divisor_at(q);
        let prod: u128 = self.a4 as u128 * ratio as u128;
        assert(prod <= 10000000 * 8107818609) by (nonlinear_arith)
            requires
                prod == self.a4 as u128 * ratio as u128,
                self.a4 <= 10000000,
                ratio <= 8107818609;
        let f: u128 = prod / divisor as u128;
        assert(f <= prod);
        f as u64
    }

    /// The fixed semitone ratio table.
    fn semitone_ratio_at(s: u64) -> (r: u64)
        requires
            s < 12,
        ensures
            r == semitone_ratio(s as int),
    {
        match s {
            0 => 4294967296,
            1 => 4550359342,
            2 => 4820937788,
            3 => 5107605667,
            4 => 5411319705,
            5 => 5733093519,
            6 => 6074001000,
            7 => 6435179895,
            8 => 6817835604,
            9 => 7223245206,
            10 => 7652761717,
            _ => 8107818609,
        }
    }

    /// The fixed octave divisor table, keyed by `(midi + 51) / 12`.
    fn octave_divisor_at(q: u64) -> (r: u64)
        requires
            6 <= q <= 13,
        ensures
            forall|midi: int| (midi + 51) / 12 == q ==> r == octave_divisor(midi),
            536870912 <= r <= 68719476736,
    {
        match q {
            6 => 68719476736,
            7 => 34359738368,
            8 => 17179869184,
            9 => 8589934592,
            10 => 4294967296,
            11 => 2147483648,
            12 => 1073741824,
            _ => 536870912,
        }
    }

    /// Convert a frequency to its deviation in centicents from a target
    /// frequency, both in millihertz.
    pub fn cents_from_target(&self, frequency: u64, target: u64) -> (c: i64)
        requires
            1 <= frequency <= 10000000,
            1 <= target <= 10000000,
        ensures
            c == spec_cents_from_target(frequency as int, target as int),
            -4200000 <= c <= 4200000,
    {
        let r0: u128 = (frequency as u128) * 4294967296u128 / (target as u128);
        assert(r0 >= 1) by {
            assert((frequency as int) * 4294967296 >= 4294967296) by (nonlinear_arith)
                requires
                    frequency >= 1;
            assert(r0 == (frequency as int) * 4294967296 / (target as int));
            vstd::arithmetic::div_mod::lemma_div_is_ordered(
                target as int,
                (frequency as int) * 4294967296,
                target as int,
            );
            lemma_div_multiples_vanish(1, target as int);
        };
        assert(r0 < 36893488147419103232int) by {
            assert((frequency as int) * 4294967296 <= 10000000 * 4294967296) by (nonlinear_arith)
                requires
                    frequency <= 10000000;
            vstd::arithmetic::div_mod::lemma_div_is_ordered(
                (frequency as int) * 4294967296,
                10000000int * 4294967296,
                target as int,
            );
            vstd::arithmetic::div_mod::lemma_div_is_ordered_by_denominator(
                10000000int * 4294967296,
                1,
                target as int,
            );
        };

        let mut v: u128 = r0;
        let mut o: i64 = 0;
        proof {
            lemma2_to64();
            lemma2_to64_rest();
            assert(r0 as int * pow2(0) == r0 as int) by (nonlinear_arith)
                requires
                    pow2(0) == 1;
        }
        if v < 4294967296 {
            while v < 4294967296
                invariant
                    1 <= v < 8589934592,
                    -33 <= o <= 0,
                    v == r0 as int * pow2((0 - o) as nat),
                    norm_up(v as int, o as int) == norm_up(r0 as int, 0),
                decreases 8589934592 - v,
            {
                proof {
                    lemma_pow2_adds((0 - o) as nat, 1);
                    lemma2_to64();
                    lemma2_to64_rest();
                    vstd::arithmetic::power2::lemma_pow2_pos((0 - o) as nat);
                    vstd::arithmetic::power2::lemma_pow2_pos((0 - o + 1) as nat);
                    assert(2 * (r0 as int * pow2((0 - o) as nat)) == r0 as int * (pow2(
                        (0 - o) as nat,
                    ) * 2)) by (nonlinear_arith);
                    assert(r0 as int * pow2((0 - o + 1) as nat) >= pow2((0 - o + 1) as nat))
                        by (nonlinear_arith)
                        requires
                            r0 >= 1,
                            pow2((0 - o + 1) as nat) >= 0;
                    if 0 - o + 1 >= 34 {
                        lemma_pow2_strictly_increases(33, (0 - o + 1) as nat);
                        assert(false);
                    }
                }
                v = v * 2;
                o = o - 1;
            }
            proof {
                assert(norm_up(v as int, o as int) == (v as int, o as int));
            }
        } else {
            while v >= 8589934592
                invariant
                    4294967296 <= v,
                    0 <= o <= 33,
                    v as int * pow2(o as nat) <= r0 as int,
                    r0 < 36893488147419103232int,
                    norm_down(v as int, o as int) == norm_down(r0 as int, 0),
                decreases v,
            {
                proof {
                    lemma_pow2_adds(o as nat, 1);
                    lemma2_to64();
                    lemma2_to64_rest();
                    vstd::arithmetic::power2::lemma_pow2_pos(o as nat);
                    vstd::arithmetic::power2::lemma_pow2_pos((o + 1) as nat);
                    assert((v as int / 2) * (pow2(o as nat) * 2) <= v as int * pow2(o as nat))
                        by (nonlinear_arith)
                        requires
                            v >= 2,
                            pow2(o as nat) >= 1;
                    assert((v as int / 2) * pow2((o + 1) as nat) >= 4294967296 * pow2(
                        (o + 1) as nat,
                    )) by (nonlinear_arith)
                        requires
                            v as int / 2 >= 4294967296,
                            pow2((o + 1) as nat) >= 1;
                    lemma_pow2_adds(32, (o + 1) as nat);
                    assert(4294967296 * pow2((o + 1) as nat) == pow2((32 + o + 1) as nat));
                    if o + 1 > 33 {
                        lemma_pow2_strictly_increases(65, (32 + o + 1) as nat);
                        lemma2_to64_rest();
                        assert(false);
                    }
                }
                v = v / 2;
                o = o + 1;
            }
            proof {
                assert(norm_down(v as int, o as int) == (v as int, o as int));
            }
        }
        assert((v as int, o as int) == spec_normalized(r0 as int));
        let ghost v_norm = v as int;

        proof {
            lemma2_to64();
        }
        let mut frac: u64 = 0;
        let mut i: u64 = 0;
        while i < 20
            invariant
                4294967296 <= v < 8589934592,
                0 <= i <= 20,
                frac < pow2(i as nat),
                log2_frac_bits(v_norm, 20) == frac as int * pow2((20 - i) as nat) + log2_frac_bits(
                    v as int,
                    (20 - i) as nat,
                ),
            decreases 20 - i,
        {
            proof {
                lemma2_to64();
                assert((v as int) * (v as int) >= 36893488147419103232int ==> (v as int) * (v as int)
                    / 8589934592 >= 4294967296) by (nonlinear_arith);
                assert((v as int) * (v as int) < 36893488147419103232int ==> (v as int) * (v as int)
                    / 8589934592 < 4294967296) by (nonlinear_arith);
                assert(v as int * v as int >= 4294967296 * 4294967296) by (nonlinear_arith)
                    requires
                        v >= 4294967296;
                assert((v as int) * (v as int) >= 18446744073709551616int ==> (v as int) * (v as int)
                    / 4294967296 >= 4294967296) by (nonlinear_arith);
                assert((v as int) * (v as int) < 73786976294838206464int) by (nonlinear_arith)
                    requires
                        v < 8589934592;
                assert((v as int) * (v as int) < 73786976294838206464int ==> (v as int) * (v as int)
                    / 8589934592 < 8589934592) by (nonlinear_arith);
                assert((v as int) * (v as int) < 36893488147419103232int ==> (v as int) * (v as int)
                    / 4294967296 < 8589934592) by (nonlinear_arith);
            }
            let sq: u128 = v * v;
            let ghost n_rem = (20 - i) as nat;
            let ghost m = (n_rem - 1) as nat;
            proof {
                lemma_pow2_adds(1, m);
                lemma_pow2_adds(1, i as nat);
                assert(pow2(n_rem) == 2 * pow2(m));
                assert(log2_frac_bits(v as int, n_rem) == if sq as int >= 36893488147419103232int {
                    pow2(m) as int + log2_frac_bits(sq as int / 8589934592, m)
                } else {
                    log2_frac_bits(sq as int / 4294967296, m)
                });
                assert(frac as int * pow2(n_rem) == (2 * frac as int) * pow2(m))
                    by (nonlinear_arith)
                    requires
                        pow2(n_rem) == 2 * pow2(m);
                assert((2 * frac as int + 1) * pow2(m) == (2 * frac as int) * pow2(m) + pow2(m))
                    by (nonlinear_arith);
            }
            if sq >= 36893488147419103232u128 {
                v = sq / 8589934592;
                frac = frac * 2 + 1;
            } else {
                v = sq / 4294967296;
                frac = frac * 2;
            }
            proof {
                assert(log2_frac_bits(v_norm, 20) == frac as int * pow2(m) + log2_frac_bits(
                    v as int,
                    m,
                ));
            }
            i = i + 1;
        }
        proof {
            lemma2_to64();
            assert(pow2(0) == 1);
            assert(log2_frac_bits(v as int, 0) == 0);
            assert(frac as int * pow2((20 - i) as nat) == frac as int) by (nonlinear_arith)
                requires
                    i == 20,
                    pow2((20 - i) as nat) == 1;
            assert(log2_frac_bits(v_norm, 20) == frac as int);
        }
        let fracpart: u64 = frac * 120000 / 1048576;
        proof {
            assert(-33 <= o <= 33);
            lemma_div_is_ordered(frac as int * 120000, 125829000000, 1048576);
            assert(fracpart <= 119999);
        }
        o * 120000 + fracpart as i64
    }

    /// Convert a deviation in centicents to a frequency ratio scaled by
    /// `1 << 20`.
    pub fn cents_to_ratio(cents: i64) -> (r: u64)
        requires
            -1200000 <= cents <= 1200000,
        ensures
            r == spec_cents_to_ratio(cents as int),
    {
        let oct: i64;
        let rem: u64;
        if cents >= 0 {
            let cu: u64 = cents as u64;
            oct = (cu / 120000) as i64;
            rem = cu % 120000;
        } else {
            let m: u64 = (-cents) as u64;
            let q: u64 = m / 120000;
            let sr: u64 = m % 120000;
            if sr == 0 {
                oct = -(q as i64);
                rem = 0;
            } else {
                oct = -(q as i64) - 1;
                rem = 120000 - sr;
            }
        }
        proof {
            lemma_fundamental_div_mod_converse(cents as int, 120000, oct as int, rem as int);
            assert(-10 <= oct <= 10);
        }

        let frac: u64 = rem * 1048576 / 120000;
        assert(frac < 1048576);

        let mut v: u64 = 4294967296;
        let mut k: u64 = 0;
        proof {
            lemma2_to64();
            assert(exp2_partial(frac as int, 0) == 4294967296);
        }
        while k < 20
            invariant
                0 <= k <= 20,
                frac < 1048576,
                v as int == exp2_partial(frac as int, k as nat),
                4294967296 <= v,
                v as int <= 4294967296 * pow2(k as nat),
            decreases 20 - k,
        {
            proof {
                lemma2_to64();
                lemma_pow2_adds(k as nat, 1);
                if ((k + 1) as nat) < 20 {
                    lemma_pow2_strictly_increases((k + 1) as nat, 20);
                }
                assert(pow2((k + 1) as nat) <= pow2(20));
            }
            let k1: u64 = k + 1;
            let d: u64 = Self::pow2_u64(20 - k1);
            let bit: u64 = (frac / d) % 2;
            if bit == 1 {
                let c: u64 = Self::exp2_step_at(k1);
                proof {
                    if (k as nat) < 20 {
                        lemma_pow2_strictly_increases(k as nat, 20);
                    }
                    assert(v as int <= 4503599627370496int) by (nonlinear_arith)
                        requires
                            v as int <= 4294967296 * pow2(k as nat),
                            pow2(k as nat) <= 1048576;
                    assert((v as int) * (c as int) <= 4503599627370496int * 8589934592)
                        by (nonlinear_arith)
                        requires
                            v <= 4503599627370496,
                            c <= 8589934592,
                            v >= 0,
                            c >= 0;
                }
                let prod: u128 = v as u128 * c as u128;
                let v2: u128 = prod / 4294967296;
                proof {
                    assert(prod <= v as int * 8589934592) by (nonlinear_arith)
                        requires
                            prod == v as int * c as int,
                            c <= 8589934592,
                            v >= 0;
                    assert(v as int * 8589934592 / 4294967296 == v as int * 2) by {
                        assert(v as int * 8589934592 == (v as int * 2) * 4294967296)
                            by (nonlinear_arith);
                        lemma_div_multiples_vanish(v as int * 2, 4294967296);
                    };
                    vstd::arithmetic::div_mod::lemma_div_is_ordered(
                        prod as int,
                        v as int * 8589934592,
                        4294967296,
                    );
                    assert(prod >= v as int * 4294967296) by (nonlinear_arith)
                        requires
                            prod == v as int * c as int,
                            c >= 4294967296,
                            v >= 0;
                    assert(v as int * 4294967296 / 4294967296 == v as int) by {
                        lemma_div_multiples_vanish(v as int, 4294967296);
                    };
                    vstd::arithmetic::div_mod::lemma_div_is_ordered(
                        v as int * 4294967296,
                        prod as int,
                        4294967296,
                    );
                    assert(v as int * 2 <= 4294967296 * pow2(k1 as nat)) by (nonlinear_arith)
                        requires
                            v as int <= 4294967296 * pow2(k as nat),
                            pow2(k1 as nat) == 2 * pow2(k as nat);
                    assert(4294967296 * pow2(k1 as nat) <= 4294967296 * pow2(20))
                        by (nonlinear_arith)
                        requires
                            pow2(k1 as nat) <= pow2(20);
                    assert(v2 as int == exp2_partial(frac as int, k1 as nat));
                }
                v = v2 as u64;
            } else {
                proof {
                    assert(v as int <= 4294967296 * pow2(k1 as nat)) by (nonlinear_arith)
                        requires
                            v as int <= 4294967296 * pow2(k as nat),
                            pow2(k1 as nat) == 2 * pow2(k as nat);
                    assert(v as int == exp2_partial(frac as int, k1 as nat));
                }
            }
            k = k1;
        }
        proof {
            lemma2_to64();
            assert(v <= 4503599627370496) by {
                assert(v as int <= 4294967296 * pow2(20));
            };
        }

        if oct >= 0 {
            let shift: u64 = Self::pow2_u64(oct as u64);
            proof {
                vstd::arithmetic::power2::lemma_pow2_pos(oct as nat);
                if (oct as nat) < 10 {
                    lemma_pow2_strictly_increases(oct as nat, 10);
                }
                assert(shift <= 1024);
            }
            proof {
                assert((v as int) * (shift as int) <= 4503599627370496int * 1024)
                    by (nonlinear_arith)
                    requires
                        v <= 4503599627370496,
                        shift <= 1024,
                        v >= 0,
                        shift >= 0;
            }
            let wide: u128 = v as u128 * shift as u128;
            let r: u128 = wide / 4096;
            r as u64
        } else {
            let shift: u64 = Self::pow2_u64((-oct) as u64);
            proof {
                vstd::arithmetic::power2::lemma_pow2_pos((-oct) as nat);
                if ((-oct) as nat) < 10 {
                    lemma_pow2_strictly_increases((-oct) as nat, 10);
                }
                assert(shift <= 1024);
            }
            let d: u64 = 4096 * shift;
            v / d
        }
    }

    /// The fixed table of `2^(1 / 2^k)` ratios.
    fn exp2_step_at(k: u64) -> (r: u64)
        requires
            1 <= k <= 20,
        ensures
            r == exp2_step(k as int),
            4294967296 <= r <= 8589934592,
    {
        match k {
            1 => 6074001000,
            2 => 5107605667,
            3 => 4683695048,
            4 => 4485121744,
            5 => 4389014833,
            6 => 4341736423,
            7 => 4318288544,
            8 => 4306612134,
            9 => 4300785774,
            10 => 4297875550,
            11 => 4296421177,
            12 => 4295694175,
            13 => 4295330720,
            14 => 4295149004,
            15 => 4295058149,
            16 => 4295012722,
            17 => 4294990009,
            18 => 4294978653,
            19 => 4294972974,
            _ => 4294970135,
        }
    }

    /// `2^e` as an executable value.
    fn pow2_u64(e: u64) -> (r: u64)
        requires
            e <= 63,
        ensures
            r == pow2(e as nat),
    {
        let mut r: u64 = 1;
        let mut i: u64 = 0;
        proof {
            lemma2_to64();
        }
        while i < e
            invariant
                0 <= i <= e <= 63,
                r == pow2(i as nat),
            decreases e - i,
        {
            proof {
                lemma_pow2_adds(i as nat, 1);
                lemma2_to64();
                lemma2_to64_rest();
                if ((i + 1) as nat) < 63 {
                    lemma_pow2_strictly_increases((i + 1) as nat, 63);
                }
                assert(pow2((i + 1) as nat) <= pow2(63));
            }
            r = r * 2;
            i = i + 1;
        }
        r
    }
}

impl Default for Temperament {
    /// The default temperament uses concert pitch, A4 = 440 Hz.
    fn default() -> (t: Self)
        ensures
            t.a4 == DEFAULT_A4_MILLIHZ,
    {
        Temperament::new()
    }
}

/// Every key's equal-tempered frequency is positive and within the range
/// the deviation conversion accepts, for any reference in the supported
/// range.
pub proof fn lemma_frequency_in_range(midi: int, a4: int)
    requires
        21 <= midi <= 108,
        100000 <= a4 <= 1000000,
    ensures
        1 <= spec_frequency(midi, a4) <= 10000000,
{
    let s = (midi + 51) % 12;
    let r = semitone_ratio(s);
    let d = octave_divisor(midi);
    let q = (midi + 51) / 12;
    let p = a4 * r;
    assert(0 <= s < 12);
    assert(4294967296 <= r <= 8107818609);
    assert(6 <= q <= 13);
    assert(536870912 <= d <= 68719476736);
    assert(p >= 100000int * 4294967296) by (nonlinear_arith)
        requires
            a4 >= 100000,
            r >= 4294967296,
            p == a4 * r;
    // Lower bound: at least the lowest reference over the largest divisor.
    lemma_div_is_ordered(100000int * 4294967296, p, d);
    vstd::arithmetic::div_mod::lemma_div_is_ordered_by_denominator(
        100000int * 4294967296,
        d,
        68719476736,
    );
    assert(100000int * 4294967296 / 68719476736 == 6250);
    // Upper bound: the top octave uses only the first four ratio entries.
    if q == 13 {
        assert(s <= 3);
        assert(r <= 5107605667);
        assert(d == 536870912);
        assert(p <= 1000000int * 5107605667) by (nonlinear_arith)
            requires
                a4 <= 1000000,
                r <= 5107605667,
                0 <= a4,
                0 <= r,
                p == a4 * r;
        lemma_div_is_ordered(p, 1000000int * 5107605667, d);
        assert(1000000int * 5107605667 / 536870912 <= 10000000);
    } else {
        assert(d >= 1073741824);
        assert(p <= 1000000int * 8107818609) by (nonlinear_arith)
            requires
                a4 <= 1000000,
                r <= 8107818609,
                0 <= a4,
                0 <= r,
                p == a4 * r;
        lemma_div_is_ordered(p, 1000000int * 8107818609, d);
        vstd::arithmetic::div_mod::lemma_div_is_ordered_by_denominator(
            1000000int * 8107818609,
            1073741824,
            d,
        );
        assert(1000000int * 8107818609 / 1073741824 <= 10000000);
    }
}

/// A4 itself is always returned at exactly the configured reference:
/// `frequency(69) == a4`.
pub proof fn lemma_a4_frequency(a4: int)
    requires
        1 <= a4 <= 10000000,
    ensures
        spec_frequency(69, a4) == a4,
{
    assert((69 + 51) % 12 == 0);
    assert(semitone_ratio(0) == 4294967296);
    assert(octave_divisor(69) == 4294967296);
    lemma_div_multiples_vanish(a4, 4294967296);
}

/// Raising a note by an octave doubles its frequency, up to the one
/// millihertz lost to rounding: `2*f(midi) <= f(midi + 12) <= 2*f(midi) + 1`.
pub proof fn lemma_octave_doubles(midi: int, a4: int)
    requires
        21 <= midi <= 96,
        1 <= a4 <= 10000000,
    ensures
        2 * spec_frequency(midi, a4) <= spec_frequency(midi + 12, a4),
        spec_frequency(midi + 12, a4) <= 2 * spec_frequency(midi, a4) + 1,
{
    let s = (midi + 51) % 12;
    assert((midi + 12 + 51) % 12 == s);
    let r = semitone_ratio(s);
    let p = a4 * r;
    let d = octave_divisor(midi);
    let d2 = octave_divisor(midi + 12);
    assert(d == 2 * d2);
    assert(0 <= s < 12);
    assert(r >= 4294967296);
    assert(p >= 0) by (nonlinear_arith)
        requires
            a4 >= 1,
            r >= 4294967296,
            p == a4 * r;
    lemma_double_div(p, d2);
}

/// Division of a nonnegative value by `2d` loses at most one unit against
/// division by `d`: `2*(p / (2d)) <= p / d <= 2*(p / (2d)) + 1`.
proof fn lemma_double_div(p: int, d: int)
    requires
        p >= 0,
        d >= 1,
    ensures
        2 * (p / (2 * d)) <= p / d <= 2 * (p / (2 * d)) + 1,
{
    let q = p / (2 * d);
    let r = p % (2 * d);
    vstd::arithmetic::div_mod::lemma_fundamental_div_mod(p, 2 * d);
    assert(p == 2 * d * q + r);
    vstd::arithmetic::div_mod::lemma_mod_bound(p, 2 * d);
    if r < d {
        assert(p == d * (2 * q) + r) by (nonlinear_arith)
            requires
                p == 2 * d * q + r;
        lemma_fundamental_div_mod_converse(p, d, 2 * q, r);
    } else {
        assert(p == d * (2 * q + 1) + (r - d)) by (nonlinear_arith)
            requires
                p == 2 * d * q + r;
        lemma_fundamental_div_mod_converse(p, d, 2 * q + 1, r - d);
    }
}

/// A frequency measured against itself deviates by zero cents.
pub proof fn lemma_cents_at_target_is_zero(f: int)
    requires
        1 <= f <= 10000000,
    ensures
        spec_cents_from_target(f, f) == 0,
{
    lemma_div_multiples_vanish(4294967296, f);
    assert(f * 4294967296 == 4294967296 * f) by (nonlinear_arith);
    assert(f * 4294967296 / f == 4294967296);
    assert(spec_normalized(4294967296) == (4294967296int, 0int));
    lemma_log2_frac_bits_of_one(20);
}

/// The fractional logarithm of an exact power-of-two ratio is zero.
proof fn lemma_log2_frac_bits_of_one(n: nat)
    ensures
        log2_frac_bits(4294967296, n) == 0,
    decreases n,
{
    if n > 0 {
        assert(4294967296int * 4294967296 == 18446744073709551616) by (nonlinear_arith);
        assert(18446744073709551616int / 4294967296 == 4294967296);
        lemma_log2_frac_bits_of_one((n - 1) as nat);
    }
}


/// Halving steps never lower the octave count.
proof fn lemma_norm_down_oct(v: int, o: int)
    requires
        v >= 0,
    ensures
        norm_down(v, o).1 >= o,
    decreases (if v >= 0 { v } else { 0 }),
{
    if v >= 8589934592 {
        lemma_norm_down_oct(v / 2, o + 1);
    }
}

/// Doubling steps from below one always lower the octave count.
proof fn lemma_norm_up_oct(v: int, o: int)
    requires
        1 <= v < 4294967296,
    ensures
        norm_up(v, o).1 <= o - 1,
    decreases 4294967296 - v,
{
    if 2 * v < 4294967296 {
        lemma_norm_up_oct(2 * v, o - 1);
    } else {
        assert(norm_up(2 * v, o - 1) == (2 * v, o - 1));
    }
}

/// The fractional logarithm bits form a value in `[0, 2^n)`.
proof fn lemma_log2_frac_bits_range(v: int, n: nat)
    ensures
        0 <= log2_frac_bits(v, n) < pow2(n),
    decreases n,
{
    lemma2_to64();
    if n > 0 {
        let sq = v * v;
        assert(sq >= 0) by (nonlinear_arith)
            requires
                sq == v * v;
        lemma_pow2_adds(1, (n - 1) as nat);
        if sq >= 36893488147419103232int {
            lemma_log2_frac_bits_range(sq / 8589934592, (n - 1) as nat);
        } else {
            lemma_log2_frac_bits_range(sq / 4294967296, (n - 1) as nat);
        }
    }
}

/// A deviation carries the right sign: a frequency at or above its target
/// reads as zero or sharp, one below it reads as flat. The pin-turning
/// hints rest on this.
pub proof fn lemma_cents_sign(f: int, t: int)
    requires
        1 <= f <= 10000000,
        1 <= t <= 10000000,
    ensures
        f >= t ==> spec_cents_from_target(f, t) >= 0,
        f < t ==> spec_cents_from_target(f, t) < 0,
{
    let x = f * 4294967296;
    let r0 = x / t;
    let vo = spec_normalized(r0);
    let frac = log2_frac_bits(vo.0, 20);
    lemma2_to64();
    lemma_log2_frac_bits_range(vo.0, 20);
    vstd::arithmetic::div_mod::lemma_div_pos_is_pos(frac * 120000, 1048576);
    lemma_div_is_ordered(frac * 120000, 125829000000, 1048576);
    if f >= t {
        assert(x >= t * 4294967296) by (nonlinear_arith)
            requires
                f >= t,
                x == f * 4294967296;
        assert(t * 4294967296 == 4294967296 * t) by (nonlinear_arith);
        lemma_div_multiples_vanish(4294967296, t);
        lemma_div_is_ordered(t * 4294967296, x, t);
        assert(r0 >= 4294967296);
        lemma_norm_down_oct(r0, 0);
        assert(vo.1 >= 0);
        assert(vo.1 * 120000 >= 0) by (nonlinear_arith)
            requires
                vo.1 >= 0;
    } else {
        // f < t keeps the scaled ratio strictly below one.
        assert(x < t * 4294967296) by (nonlinear_arith)
            requires
                f < t,
                x == f * 4294967296;
        if r0 >= 4294967296 {
            vstd::arithmetic::div_mod::lemma_fundamental_div_mod(x, t);
            assert(x == t * r0 + x % t);
            vstd::arithmetic::div_mod::lemma_mod_bound(x, t);
            assert(t * r0 >= t * 4294967296) by (nonlinear_arith)
                requires
                    r0 >= 4294967296,
                    t >= 1;
            assert(false);
        }
        assert(x >= 4294967296) by (nonlinear_arith)
            requires
                f >= 1,
                x == f * 4294967296;
        lemma_div_multiples_vanish(1, t);
        lemma_div_is_ordered(t, x, t);
        assert(r0 >= 1);
        lemma_norm_up_oct(r0, 0);
        assert(vo.1 <= -1);
        assert(vo.1 * 120000 <= -120000) by (nonlinear_arith)
            requires
                vo.1 <= -1;
        assert(frac * 120000 / 1048576 <= 119999);
    }
}


/// A semitone at the default reference reads as within one centicent of
/// 100 cents: the logarithm's twenty fractional bits resolve about 0.11
/// centicent per step, and the final floor to centicents loses at most one
/// more unit, so `cents_from_target(frequency(70), frequency(69))` comes
/// out at exactly 9999 centicents.
pub proof fn lemma_semitone_hundred_cents()
    ensures
        spec_frequency(69, 440000) == 440000,
        spec_frequency(70, 440000) == 466163,
        spec_cents_from_target(466163, 440000) == 9999,
        10000 - 1 <= spec_cents_from_target(
            spec_frequency(70, 440000),
            spec_frequency(69, 440000),
        ) <= 10000,
{
    lemma2_to64();
    lemma_a4_frequency(440000);
    assert((70 + 51) % 12 == 1);
    assert(semitone_ratio(1) == 4550359342);
    assert(octave_divisor(70) == 4294967296);
    assert(spec_frequency(70, 440000) == 466163);
    let r0 = 466163int * 4294967296 / 440000;
    assert(r0 == 4550351908);
    assert(spec_normalized(4550351908) == (4550351908int, 0int));
    assert(log2_frac_bits(7805642988, 0) == 0);
    assert(log2_frac_bits(5790076110, 1) == 0);
    assert(log2_frac_bits(7052402078, 2) == 2);
    assert(log2_frac_bits(5503620289, 3) == 2);
    assert(log2_frac_bits(4861879179, 4) == 2);
    assert(log2_frac_bits(6462447226, 5) == 18);
    assert(log2_frac_bits(5268396292, 6) == 18);
    assert(log2_frac_bits(6727197006, 7) == 82);
    assert(log2_frac_bits(5375229403, 8) == 82);
    assert(log2_frac_bits(6795062104, 9) == 338);
    assert(log2_frac_bits(5402274476, 10) == 338);
    assert(log2_frac_bits(6812135084, 11) == 1362);
    assert(log2_frac_bits(5409056979, 12) == 1362);
    assert(log2_frac_bits(6816410027, 13) == 5458);
    assert(log2_frac_bits(5410753935, 14) == 5458);
    assert(log2_frac_bits(6817479182, 15) == 21842);
    assert(log2_frac_bits(5411178257, 16) == 21842);
    assert(log2_frac_bits(6817746497, 17) == 87378);
    assert(log2_frac_bits(5411284343, 18) == 87378);
    assert(log2_frac_bits(4820922037, 19) == 87378);
    assert(log2_frac_bits(4550351908, 20) == 87378);
    assert(spec_cents_from_target(466163, 440000) == 87378int * 120000 / 1048576);
}

} // verus!

