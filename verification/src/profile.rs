//! Piano profiling: one deviation measurement per key, used to derive a
//! worst-first tuning order.

use vstd::prelude::*;
use vstd::seq_lib::group_to_multiset_ensures;
use crate::clock;
use crate::notes::Note;
use crate::order::spec_abs;

verus! {

/// A single profiled note measurement.
#[derive(Clone, Copy, PartialEq, Eq, Structural)]
pub struct ProfiledNote {
    /// MIDI note number (21-108).
    pub midi: u8,
    /// Detected frequency in millihertz.
    pub frequency: u64,
    /// Deviation from target in centicents.
    pub cents: i64,
    /// When this measurement was taken, in milliseconds since the epoch.
    pub timestamp: i64,
}

impl ProfiledNote {
    /// Create a new profiled note, stamped with the current time.
    pub fn new(midi: u8, frequency: u64, cents: i64) -> (p: Self)
        ensures
            p.midi == midi,
            p.frequency == frequency,
            p.cents == cents,
    {
        ProfiledNote { midi, frequency, cents, timestamp: clock::now_millis() }
    }
}

/// How many of the first `n` slots hold a measurement.
pub open spec fn count_some(s: Seq<Option<ProfiledNote>>, n: int) -> int
    decreases n,
{
    if n <= 0 {
        0
    } else {
        count_some(s, n - 1) + if s[n - 1] is Some {
            1int
        } else {
            0int
        }
    }
}

/// Sum of the absolute deviations of the measurements among the first `n`
/// slots, in centicents.
pub open spec fn sum_abs_cents(s: Seq<Option<ProfiledNote>>, n: int) -> int
    decreases n,
{
    if n <= 0 {
        0
    } else {
        sum_abs_cents(s, n - 1) + match s[n - 1] {
            Some(p) => spec_abs(p.cents as int),
            None => 0,
        }
    }
}

/// The deviation recorded for slot `i`, with unmeasured slots read as zero.
pub open spec fn spec_deviation_at(s: Seq<Option<ProfiledNote>>, i: int) -> int {
    match s[i] {
        Some(p) => p.cents as int,
        None => 0,
    }
}

/// The 88-entry deviation table of a profile, unmeasured keys as zero.
pub open spec fn spec_profile_devs(s: Seq<Option<ProfiledNote>>) -> Seq<i64> {
    Seq::new(
        88,
        |i: int|
            match s[i] {
                Some(p) => p.cents,
                None => 0i64,
            },
    )
}

/// Some slot of the profile holds exactly this measurement.
pub open spec fn is_measured(notes: Seq<Option<ProfiledNote>>, p: ProfiledNote) -> bool {
    exists|i: int| 0 <= i < 88 && #[trigger] notes[i] == Some(p)
}

/// Measurement `a` sorts before `b`: larger absolute deviation first, ties
/// by ascending chromatic index.
pub open spec fn measured_before(a: (usize, ProfiledNote), b: (usize, ProfiledNote)) -> bool {
    let x = spec_abs(a.1.cents as int);
    let y = spec_abs(b.1.cents as int);
    x > y || (x == y && a.0 <= b.0)
}

/// `all` is the worst-first listing of a profile's measurements: every
/// entry is a filled slot read at its own index, every measured slot
/// appears (the lengths match and the indices are distinct), and entries
/// come in deviation order. These clauses determine the sequence uniquely,
/// since `measured_before` totally orders distinct indices.
pub open spec fn by_deviation_listing(
    notes: Seq<Option<ProfiledNote>>,
    all: Seq<(usize, ProfiledNote)>,
) -> bool {
    &&& all.len() == count_some(notes, 88)
    &&& forall|k: int|
        0 <= k < all.len() ==> (#[trigger] all[k]).0 < 88 && notes[all[k].0 as int] == Some(
            all[k].1,
        )
    &&& forall|k: int, l: int| 0 <= k < l < all.len() ==> measured_before(all[k], all[l])
    &&& forall|k: int, l: int| 0 <= k < l < all.len() ==> all[k].0 != all[l].0
}

/// A profile with one optional measurement per key, indexed by chromatic
/// position (midi - 21).
pub struct PianoProfile {
    /// Unique profile ID (an RFC 3339 timestamp).
    pub id: String,
    /// Measurements for each note (index 0 = A0, index 87 = C8).
    pub notes: Vec<Option<ProfiledNote>>,
    /// When this profile was created, in milliseconds since the epoch.
    pub created_at: i64,
}

impl PianoProfile {
    /// Every slot that is filled carries the key it is indexed by, a
    /// positive frequency and a bounded deviation.
    pub open spec fn wf(&self) -> bool {
        &&& self.notes@.len() == 88
        &&& forall|i: int|
            0 <= i < 88 ==> match #[trigger] self.notes@[i] {
                Some(p) => p.midi == 21 + i && 1 <= p.frequency <= 10000000 && -1000000000
                    <= p.cents <= 1000000000,
                None => true,
            }
    }

    /// Create a new empty profile.
    pub fn new() -> (profile: Self)
        ensures
            profile.wf(),
            forall|i: int| 0 <= i < 88 ==> #[trigger] profile.notes@[i] is None,
            count_some(profile.notes@, 88) == 0,
    {
        let mut notes: Vec<Option<ProfiledNote>> = Vec::new();
        let mut i: usize = 0;
        while i < crate::notes::NOTE_COUNT
            invariant
                i <= 88,
                notes@.len() == i,
                forall|k: int| 0 <= k < i ==> #[trigger] notes@[k] is None,
            decreases 88 - i,
        {
            notes.push(None);
            i = i + 1;
        }
        let (created_at, id) = clock::now_instant();
        let profile = PianoProfile { id, notes, created_at };
        proof {
            lemma_count_some_all_none(profile.notes@, 88);
        }
        profile
    }

    /// Record a measurement for a MIDI note. A note outside the keyboard is
    /// ignored; otherwise its slot is overwritten.
    pub fn record_note(&mut self, midi: u8, frequency: u64, cents: i64)
        requires
            old(self).wf(),
            1 <= frequency <= 10000000,
            -1000000000 <= cents <= 1000000000,
        ensures
            final(self).wf(),
            final(self).id == old(self).id,
            final(self).created_at == old(self).created_at,
            final(self).notes@.len() == 88,
            !(21 <= midi <= 108) ==> final(self).notes@ == old(self).notes@,
            21 <= midi <= 108 ==> {
                &&& forall|i: int|
                    0 <= i < 88 && i != midi - 21 ==> #[trigger] final(self).notes@[i] == old(
                        self,
                    ).notes@[i]
                &&& match final(self).notes@[midi - 21] {
                    Some(p) => p.midi == midi && p.frequency == frequency && p.cents == cents,
                    None => false,
                }
            },
    {
        if 21 <= midi && midi <= 108 {
            let idx: usize = (midi - 21) as usize;
            let entry = ProfiledNote::new(midi, frequency, cents);
            *vstd::std_specs::vec::vec_index_mut(&mut self.notes, idx) = Some(entry);
        }
    }

    /// Check if all 88 notes have been profiled.
    pub fn is_complete(&self) -> (r: bool)
        requires
            self.wf(),
        ensures
            r == forall|i: int| 0 <= i < 88 ==> #[trigger] self.notes@[i] is Some,
    {
        let mut i: usize = 0;
        while i < 88
            invariant
                self.wf(),
                i <= 88,
                forall|k: int| 0 <= k < i ==> #[trigger] self.notes@[k] is Some,
            decreases 88 - i,
        {
            if self.notes[i].is_none() {
                return false;
            }
            i = i + 1;
        }
        true
    }

    /// Get progress as (completed, total).
    pub fn progress(&self) -> (r: (usize, usize))
        requires
            self.wf(),
        ensures
            r.0 == count_some(self.notes@, 88),
            r.1 == 88,
    {
        let mut count: usize = 0;
        let mut i: usize = 0;
        while i < 88
            invariant
                self.wf(),
                i <= 88,
                count == count_some(self.notes@, i as int),
                count <= i,
            decreases 88 - i,
        {
            if self.notes[i].is_some() {
                count = count + 1;
            }
            i = i + 1;
        }
        (count, 88)
    }

    /// Average absolute deviation across the measured notes, in centicents;
    /// zero when nothing has been measured.
    pub fn average_deviation(&self) -> (avg: i64)
        requires
            self.wf(),
        ensures
            count_some(self.notes@, 88) == 0 ==> avg == 0,
            count_some(self.notes@, 88) > 0 ==> avg == sum_abs_cents(self.notes@, 88)
                / count_some(self.notes@, 88),
    {
        let mut sum: i64 = 0;
        let mut count: i64 = 0;
        let mut i: usize = 0;
        while i < 88
            invariant
                self.wf(),
                i <= 88,
                count == count_some(self.notes@, i as int),
                sum == sum_abs_cents(self.notes@, i as int),
                0 <= count <= i,
                0 <= sum <= i as int * 1000000000,
            decreases 88 - i,
        {
            proof {
                assert((i + 1) as int * 1000000000 == i as int * 1000000000 + 1000000000)
                    by (nonlinear_arith);
            }
            match &self.notes[i] {
                Some(p) => {
                    sum = sum + crate::order::abs_centicents(p.cents);
                    count = count + 1;
                },
                None => {},
            }
            i = i + 1;
        }
        if count == 0 {
            0
        } else {
            proof {
                vstd::arithmetic::div_mod::lemma_div_pos_is_pos(sum as int, count as int);
            }
            ((sum as u64) / (count as u64)) as i64
        }
    }

    /// All measured notes with their chromatic indices, worst absolute
    /// deviation first, ties by ascending index.
    pub fn notes_by_deviation(&self) -> (r: Vec<(usize, ProfiledNote)>)
        requires
            self.wf(),
        ensures
            by_deviation_listing(self.notes@, r@),
            r@.len() == count_some(self.notes@, 88),
            forall|k: int|
                0 <= k < r@.len() ==> #[trigger] r@[k].0 < 88 && self.notes@[r@[k].0 as int]
                    == Some(r@[k].1),
            forall|k: int, l: int| 0 <= k < l < r@.len() ==> measured_before(r@[k], r@[l]),
            forall|k: int, l: int| 0 <= k < l < r@.len() ==> r@[k].0 != r@[l].0,
    {
        let mut src: Vec<(usize, ProfiledNote)> = Vec::new();
        let mut i: usize = 0;
        while i < 88
            invariant
                self.wf(),
                i <= 88,
                src@.len() == count_some(self.notes@, i as int),
                forall|k: int|
                    0 <= k < src@.len() ==> #[trigger] src@[k].0 < i && self.notes@[src@[k].0 as int]
                        == Some(src@[k].1),
                forall|k: int, l: int| 0 <= k < l < src@.len() ==> src@[k].0 < src@[l].0,
            decreases 88 - i,
        {
            match &self.notes[i] {
                Some(p) => {
                    src.push((i, *p));
                },
                None => {},
            }
            i = i + 1;
        }
        let ghost total = src@.len() as int;

        let mut out: Vec<(usize, ProfiledNote)> = Vec::new();
        while src.len() > 0
            invariant
                self.wf(),
                out@.len() + src@.len() == total,
                forall|k: int|
                    0 <= k < src@.len() ==> #[trigger] src@[k].0 < 88 && self.notes@[src@[k].0 as int]
                        == Some(src@[k].1),
                forall|k: int|
                    0 <= k < out@.len() ==> #[trigger] out@[k].0 < 88 && self.notes@[out@[k].0 as int]
                        == Some(out@[k].1),
                forall|k: int, l: int| 0 <= k < l < out@.len() ==> measured_before(out@[k], out@[l]),
                forall|k: int, l: int|
                    0 <= k < out@.len() && 0 <= l < src@.len() ==> measured_before(out@[k], src@[l]),
                forall|k: int, l: int| 0 <= k < l < out@.len() ==> out@[k].0 != out@[l].0,
                forall|k: int, l: int| 0 <= k < l < src@.len() ==> src@[k].0 != src@[l].0,
                forall|k: int, l: int|
                    0 <= k < out@.len() && 0 <= l < src@.len() ==> out@[k].0 != src@[l].0,
            decreases src@.len(),
        {
            let mut best: usize = 0;
            let mut k: usize = 1;
            while k < src.len()
                invariant
                    self.wf(),
                    src@.len() > 0,
                    best < src@.len(),
                    k <= src@.len(),
                    forall|i2: int|
                        0 <= i2 < src@.len() ==> #[trigger] src@[i2].0 < 88
                            && self.notes@[src@[i2].0 as int] == Some(src@[i2].1),
                    forall|m: int| 0 <= m < k ==> measured_before(src@[best as int], #[trigger] src@[m]),
                decreases src@.len() - k,
            {
                let a = src[best];
                let b = src[k];
                proof {
                    assert(self.notes@[src@[best as int].0 as int] == Some(src@[best as int].1));
                    assert(self.notes@[src@[k as int].0 as int] == Some(src@[k as int].1));
                }
                let x = crate::order::abs_centicents(a.1.cents);
                let y = crate::order::abs_centicents(b.1.cents);
                if y > x || (y == x && b.0 < a.0) {
                    best = k;
                }
                proof {
                    assert forall|m: int| 0 <= m < k + 1 implies measured_before(
                        src@[best as int],
                        #[trigger] src@[m],
                    ) by {
                        assert(measured_before(src@[best as int], src@[m]));
                    };
                }
                k = k + 1;
            }
            let ghost old_out = out@;
            let ghost old_src = src@;
            let chosen = src.remove(best);
            out.push(chosen);
            proof {
                assert(src@ == old_src.remove(best as int));
                assert forall|l: int| 0 <= l < src@.len() implies (#[trigger] src@[l].0 < 88
                    && self.notes@[src@[l].0 as int] == Some(src@[l].1) && measured_before(
                    chosen,
                    src@[l],
                ) && chosen.0 != src@[l].0) by {
                    if l < best {
                        assert(src@[l] == old_src[l]);
                    } else {
                        assert(src@[l] == old_src[l + 1]);
                    }
                };
                assert forall|k2: int, l: int| 0 <= k2 < l < src@.len() implies src@[k2].0
                    != src@[l].0 by {
                    if k2 < best {
                        assert(src@[k2] == old_src[k2]);
                    } else {
                        assert(src@[k2] == old_src[k2 + 1]);
                    }
                    if l < best {
                        assert(src@[l] == old_src[l]);
                    } else {
                        assert(src@[l] == old_src[l + 1]);
                    }
                };
                assert forall|k2: int, l: int|
                    0 <= k2 < out@.len() && 0 <= l < src@.len() implies (measured_before(
                    out@[k2],
                    src@[l],
                ) && out@[k2].0 != src@[l].0) by {
                    if l < best {
                        assert(src@[l] == old_src[l]);
                    } else {
                        assert(src@[l] == old_src[l + 1]);
                    }
                    if k2 < old_out.len() {
                        assert(out@[k2] == old_out[k2]);
                    }
                };
            }
        }
        out
    }

    /// The `n` worst measured notes by absolute deviation: the `n`-prefix
    /// of the full worst-first listing, without the indices.
    pub fn worst_notes(&self, n: usize) -> (r: Vec<ProfiledNote>)
        requires
            self.wf(),
        ensures
            r@.len() == vstd::math::min(n as int, count_some(self.notes@, 88)),
            exists|all: Seq<(usize, ProfiledNote)>|
                #[trigger] by_deviation_listing(self.notes@, all) && forall|k: int|
                    0 <= k < r@.len() ==> r@[k] == all[k].1,
            forall|k: int| 0 <= k < r@.len() ==> is_measured(self.notes@, #[trigger] r@[k]),
            forall|k: int, l: int|
                0 <= k < l < r@.len() ==> spec_abs(r@[k].cents as int) >= spec_abs(
                    r@[l].cents as int,
                ),
    {
        let all = self.notes_by_deviation();
        let mut r: Vec<ProfiledNote> = Vec::new();
        let mut k: usize = 0;
        while k < all.len() && k < n
            invariant
                k <= all@.len(),
                k <= n,
                r@.len() == k,
                all@.len() == count_some(self.notes@, 88),
                forall|m: int| 0 <= m < k ==> #[trigger] r@[m] == all@[m].1,
                forall|m: int|
                    0 <= m < all@.len() ==> #[trigger] all@[m].0 < 88
                        && self.notes@[all@[m].0 as int] == Some(all@[m].1),
                forall|m: int, l: int| 0 <= m < l < all@.len() ==> measured_before(all@[m], all@[l]),
            decreases all@.len() - k,
        {
            let entry = all[k];
            r.push(entry.1);
            k = k + 1;
        }
        proof {
            assert forall|k2: int| 0 <= k2 < r@.len() implies is_measured(
                self.notes@,
                #[trigger] r@[k2],
            ) by {
                assert(self.notes@[all@[k2].0 as int] == Some(r@[k2]));
            };
            assert forall|k2: int, l: int| 0 <= k2 < l < r@.len() implies spec_abs(
                r@[k2].cents as int,
            ) >= spec_abs(r@[l].cents as int) by {
                assert(measured_before(all@[k2], all@[l]));
            };
            assert(by_deviation_listing(self.notes@, all@) && forall|k2: int|
                0 <= k2 < r@.len() ==> r@[k2] == all@[k2].1);
        }
        r
    }

    /// The 88-entry deviation table of this profile in centicents, indexed
    /// by chromatic index, with unmeasured keys read as zero. This is the
    /// input a profile-driven tuning order is computed from.
    pub fn deviations(&self) -> (devs: Vec<i64>)
        requires
            self.wf(),
        ensures
            devs@.len() == 88,
            devs@ == spec_profile_devs(self.notes@),
            forall|i: int|
                0 <= i < 88 ==> #[trigger] devs@[i] as int == spec_deviation_at(self.notes@, i),
            forall|i: int| 0 <= i < 88 ==> -1000000000 <= #[trigger] devs@[i] <= 1000000000,
    {
        let mut devs: Vec<i64> = Vec::new();
        let mut i: usize = 0;
        while i < 88
            invariant
                self.wf(),
                i <= 88,
                devs@.len() == i,
                forall|k: int|
                    0 <= k < i ==> #[trigger] devs@[k] as int == spec_deviation_at(self.notes@, k),
                forall|k: int| 0 <= k < i ==> -1000000000 <= #[trigger] devs@[k] <= 1000000000,
            decreases 88 - i,
        {
            match &self.notes[i] {
                Some(p) => {
                    devs.push(p.cents);
                },
                None => {
                    devs.push(0);
                },
            }
            i = i + 1;
        }
        proof {
            assert(devs@ =~= spec_profile_devs(self.notes@));
        }
        devs
    }

    /// Convert a MIDI note number to a chromatic index.
    pub fn midi_to_index(midi: u8) -> (r: Option<usize>)
        ensures
            21 <= midi <= 108 ==> r == Some((midi - 21) as usize),
            !(21 <= midi <= 108) ==> r is None,
    {
        if 21 <= midi && midi <= 108 {
            Some((midi - 21) as usize)
        } else {
            None
        }
    }

    /// Get note info for a chromatic index.
    pub fn note_at(index: usize) -> (r: Option<Note>)
        ensures
            index < 88 ==> match r {
                Some(n) => crate::notes::is_note_for(n, 21 + index),
                None => false,
            },
            index >= 88 ==> r is None,
    {
        if index < 88 {
            Some(Note::for_index(index))
        } else {
            None
        }
    }
}

impl Default for PianoProfile {
    /// The default profile is empty.
    fn default() -> (profile: Self)
        ensures
            profile.wf(),
            count_some(profile.notes@, 88) == 0,
    {
        PianoProfile::new()
    }
}

/// A profile with no measurement in any slot counts zero measurements.
proof fn lemma_count_some_all_none(s: Seq<Option<ProfiledNote>>, n: int)
    requires
        n <= s.len(),
        forall|i: int| 0 <= i < s.len() ==> #[trigger] s[i] is None,
    ensures
        count_some(s, n) == 0,
    decreases n,
{
    if n > 0 {
        lemma_count_some_all_none(s, n - 1);
    }
}

/// Order profiles most recent first. Used on the list a storage layer
/// loaded back from disk.
pub fn sort_by_recency(profiles: Vec<PianoProfile>) -> (r: Vec<PianoProfile>)
    ensures
        r@.to_multiset() == profiles@.to_multiset(),
        forall|k: int, l: int| 0 <= k < l < r@.len() ==> r@[k].created_at >= r@[l].created_at,
{
    broadcast use group_to_multiset_ensures;

    let ghost orig = profiles@;
    let mut src = profiles;
    let mut out: Vec<PianoProfile> = Vec::new();
    proof {
        assert(out@.to_multiset().add(src@.to_multiset()) =~= orig.to_multiset());
    }
    while src.len() > 0
        invariant
            out@.to_multiset().add(src@.to_multiset()) == orig.to_multiset(),
            forall|k: int, l: int| 0 <= k < l < out@.len() ==> out@[k].created_at >= out@[l].created_at,
            forall|k: int, l: int|
                0 <= k < out@.len() && 0 <= l < src@.len() ==> out@[k].created_at
                    >= src@[l].created_at,
        decreases src@.len(),
    {
        let mut best: usize = 0;
        let mut k: usize = 1;
        while k < src.len()
            invariant
                src@.len() > 0,
                best < src@.len(),
                k <= src@.len(),
                forall|m: int|
                    0 <= m < k ==> src@[best as int].created_at >= #[trigger] src@[m].created_at,
            decreases src@.len() - k,
        {
            if src[k].created_at > src[best].created_at {
                best = k;
            }
            k = k + 1;
        }
        let ghost old_out = out@;
        let ghost old_src = src@;
        let chosen = src.remove(best);
        out.push(chosen);
        proof {
            broadcast use vstd::multiset::group_multiset_axioms;

            assert(src@ == old_src.remove(best as int));
            assert(out@ == old_out.push(chosen));
            assert(old_src.contains(chosen)) by {
                assert(old_src[best as int] == chosen);
            };
            vstd::seq_lib::to_multiset_contains(old_src, chosen);
            vstd::seq_lib::to_multiset_build(old_out, chosen);
            vstd::seq_lib::to_multiset_remove(old_src, best as int);
            assert(old_src.to_multiset().count(chosen) > 0);
            assert(old_out.push(chosen).to_multiset() =~= old_out.to_multiset().insert(chosen));
            assert(old_src.remove(best as int).to_multiset() =~= old_src.to_multiset().remove(
                old_src[best as int],
            ));
            assert(out@.to_multiset().add(src@.to_multiset()) =~= old_out.to_multiset().add(
                old_src.to_multiset(),
            ));
            assert forall|l: int| 0 <= l < src@.len() implies chosen.created_at
                >= #[trigger] src@[l].created_at by {
                if l < best {
                    assert(src@[l] == old_src[l]);
                } else {
                    assert(src@[l] == old_src[l + 1]);
                }
            };
            assert forall|k2: int, l: int|
                0 <= k2 < out@.len() && 0 <= l < src@.len() implies out@[k2].created_at
                >= src@[l].created_at by {
                if l < best {
                    assert(src@[l] == old_src[l]);
                } else {
                    assert(src@[l] == old_src[l + 1]);
                }
                if k2 < old_out.len() {
                    assert(out@[k2] == old_out[k2]);
                }
            };
        }
    }
    out
}

} // verus!
