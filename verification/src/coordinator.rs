//! The tuning coordinator: the state machine that consumes live pitch
//! estimates and user commands, walks the session through the tuning order
//! note by note and string by string, and prepares everything the
//! presentation and persistence collaborators read.

use vstd::prelude::*;
use crate::notes::{Note, first_index_of_name, is_note_for, spec_display_name, spec_strings};
use crate::order::{OrderKind, TuningOrder, order_before};
use crate::pitch::PitchResult;
use crate::profile::{PianoProfile, spec_profile_devs};
use crate::session::{CompletedNote, Session, TuningMode};
use crate::steps::{TuningStep, spec_first_step, spec_last_step, spec_next, spec_prev};
use crate::temperament::{Temperament, spec_cents_from_target, spec_frequency};

verus! {

/// Application phase.
#[derive(Debug, Clone, Copy, PartialEq, Eq, Structural)]
pub enum AppState {
    /// Mode selection, before a session exists.
    ModeSelect,
    /// Calibration (for quick tune): listening for the pitch center.
    Calibration,
    /// Profiling every key before a worst-first tuning pass.
    Profiling,
    /// Main tuning.
    Tuning,
    /// Session complete.
    Complete,
}

/// Confident pitch samples collected before calibration concludes.
pub const CALIBRATION_TARGET: usize = 10;

/// Confidence floor for tuning and profiling, in thousandths.
pub const TUNING_CONFIDENCE_FLOOR: u32 = 600;

/// Confidence floor for calibration, in thousandths.
pub const CALIBRATION_CONFIDENCE_FLOOR: u32 = 800;

/// The sub-step belongs to a note with this many strings.
pub open spec fn step_fits(strings: int, step: Option<TuningStep>) -> bool {
    if strings == 2 {
        step == Some(TuningStep::MuteBichord) || step == Some(TuningStep::TuneBichord)
    } else if strings == 3 {
        step == Some(TuningStep::MuteOuter) || step == Some(TuningStep::TuneCenter) || step
            == Some(TuningStep::TuneLeft) || step == Some(TuningStep::TuneRight)
    } else {
        step is None
    }
}

/// Sum of the first `n` collected calibration frequencies.
pub open spec fn spec_sum_freqs(s: Seq<u64>, n: int) -> int
    decreases n,
{
    if n <= 0 {
        0
    } else {
        spec_sum_freqs(s, n - 1) + s[n - 1]
    }
}

/// The calibration average clamped into the supported reference range.
pub open spec fn spec_clamped_a4(x: int) -> int {
    if x < 100000 {
        100000
    } else if x > 1000000 {
        1000000
    } else {
        x
    }
}

/// An estimate clears the confidence floor of the given phase.
pub open spec fn spec_confident(state: AppState, estimate: Option<PitchResult>) -> bool {
    match estimate {
        Some(p) => if state is Calibration {
            p.confidence >= CALIBRATION_CONFIDENCE_FLOOR
        } else {
            p.confidence >= TUNING_CONFIDENCE_FLOOR
        },
        None => false,
    }
}

/// The chromatic indices that a list of completion records resolves to,
/// in record order; records whose note name no key carries are skipped.
pub open spec fn spec_resolved_indices(notes: Seq<CompletedNote>) -> Seq<usize>
    decreases notes.len(),
{
    if notes.len() == 0 {
        Seq::empty()
    } else {
        let rest = spec_resolved_indices(notes.drop_last());
        let m = first_index_of_name(notes.last().note@, 0);
        if m >= 0 {
            rest.push(m as usize)
        } else {
            rest
        }
    }
}

/// The tuning coordinator.
pub struct Coordinator {
    /// Current phase.
    pub state: AppState,
    /// The session being advanced; handed to persistence at save points.
    pub session: Session,
    /// The order in which the 88 keys are visited.
    pub order: TuningOrder,
    /// Frequency and deviation conversions at the session's reference.
    pub temperament: Temperament,
    /// Sub-step within the current note, for bichords and trichords.
    pub sub_step: Option<TuningStep>,
    /// The last confident estimate: frequency in millihertz and deviation
    /// from the current target in centicents; cleared on silence or noise.
    pub displayed: Option<(u64, i64)>,
    /// Confident frequencies collected during calibration, in millihertz.
    pub calib_freqs: Vec<u64>,
    /// The next chromatic index to profile, in fixed chromatic order.
    pub profiling_index: usize,
    /// The profile being built during the profiling phase.
    pub profile: PianoProfile,
}

impl Coordinator {
    /// The chromatic index of the note under the cursor.
    pub open spec fn current_chrom(&self) -> int {
        self.order.positions@[self.session.current_note_index as int] as int
    }

    /// The MIDI number of the note under the cursor.
    pub open spec fn current_midi(&self) -> int {
        21 + self.current_chrom()
    }

    /// Every component is well formed, the temperament follows the
    /// session's reference, the cursor is on a real note whenever tuning,
    /// and the sub-step always belongs to that note's string count.
    pub open spec fn wf(&self) -> bool {
        &&& self.session.wf()
        &&& self.order.wf()
        &&& self.temperament.wf()
        &&& self.temperament.a4 == self.session.a4_reference
        &&& self.profile.wf()
        &&& self.profiling_index <= 88
        &&& self.state is Tuning ==> self.session.current_note_index < 88
        &&& self.state is Tuning ==> step_fits(spec_strings(self.current_midi()), self.sub_step)
        &&& self.state is Profiling ==> self.profiling_index < 88
        &&& self.state is Profiling ==> self.session.current_note_index < 88
        &&& self.state is Calibration ==> self.session.current_note_index < 88
        &&& self.state is Complete ==> self.session.current_note_index == 88
        &&& self.calib_freqs@.len() < 10
        &&& forall|i: int|
            0 <= i < self.calib_freqs@.len() ==> 20000 <= #[trigger] self.calib_freqs@[i]
                <= 5000000
        &&& match self.displayed {
            Some(fc) => 20000 <= fc.0 <= 5000000 && -1000000000 <= fc.1 <= 1000000000,
            None => true,
        }
    }

    /// The first sub-step for the note at a cursor position of the order.
    fn first_step_at(order: &TuningOrder, index: usize) -> (r: Option<TuningStep>)
        requires
            order.wf(),
            index < 88,
        ensures
            r == spec_first_step(spec_strings(21 + order.positions@[index as int])),
            step_fits(spec_strings(21 + order.positions@[index as int]), r),
    {
        let note = order.note_at(index);
        TuningStep::first_for_strings(note.strings)
    }

    /// Start a new session. Quick tune begins by calibrating the piano's
    /// pitch center; concert pitch goes straight to tuning; profile mode
    /// measures every key first.
    pub fn new(mode: TuningMode, a4_reference: u64) -> (c: Self)
        requires
            100000 <= a4_reference <= 1000000,
        ensures
            c.wf(),
            c.session.mode == mode,
            c.session.a4_reference == a4_reference,
            c.session.current_note_index == 0,
            c.session.completed_notes@.len() == 0,
            c.order.kind == OrderKind::Traditional,
            c.state == match mode {
                TuningMode::Quick => AppState::Calibration,
                TuningMode::Concert => AppState::Tuning,
                TuningMode::Profile => AppState::Profiling,
            },
            c.profiling_index == 0,
            c.displayed is None,
            c.sub_step == spec_first_step(spec_strings(21 + c.order.positions@[0])),
    {
        let session = Session::new(mode, a4_reference);
        let order = TuningOrder::new();
        let state = match mode {
            TuningMode::Quick => AppState::Calibration,
            TuningMode::Concert => AppState::Tuning,
            TuningMode::Profile => AppState::Profiling,
        };
        let sub_step = Self::first_step_at(&order, 0);
        Coordinator {
            state,
            session,
            order,
            temperament: Temperament::with_a4(a4_reference),
            sub_step,
            displayed: None,
            calib_freqs: Vec::new(),
            profiling_index: 0,
            profile: PianoProfile::new(),
        }
    }

    /// Re-enter a previously saved session at its cursor, with the
    /// traditional order and the sub-step reset to the current note's first
    /// step. A session whose cursor already ran past the last note resumes
    /// as complete.
    pub fn resume(session: Session) -> (c: Self)
        requires
            session.wf(),
        ensures
            c.wf(),
            c.session == session,
            c.order.kind == OrderKind::Traditional,
            session.current_note_index < 88 ==> c.state == AppState::Tuning,
            session.current_note_index < 88 ==> c.sub_step == spec_first_step(
                spec_strings(21 + c.order.positions@[session.current_note_index as int]),
            ),
            session.current_note_index >= 88 ==> c.state == AppState::Complete,
            c.displayed is None,
    {
        let order = TuningOrder::new();
        let state;
        let sub_step;
        if session.current_note_index < 88 {
            state = AppState::Tuning;
            sub_step = Self::first_step_at(&order, session.current_note_index);
        } else {
            state = AppState::Complete;
            sub_step = None;
        }
        let a4 = session.a4_reference;
        Coordinator {
            state,
            session,
            order,
            temperament: Temperament::with_a4(a4),
            sub_step,
            displayed: None,
            calib_freqs: Vec::new(),
            profiling_index: 0,
            profile: PianoProfile::new(),
        }
    }

    /// The chromatic indices of the notes this session has completed,
    /// resolved through each record's display name; unresolvable names are
    /// skipped rather than failing the resumption.
    pub fn completed_indices(&self) -> (r: Vec<usize>)
        ensures
            r@ == spec_resolved_indices(self.session.completed_notes@),
            forall|k: int| 0 <= k < r@.len() ==> #[trigger] r@[k] < 88,
    {
        let mut r: Vec<usize> = Vec::new();
        let mut i: usize = 0;
        while i < self.session.completed_notes.len()
            invariant
                i <= self.session.completed_notes@.len(),
                r@ == spec_resolved_indices(self.session.completed_notes@.take(i as int)),
                forall|k: int| 0 <= k < r@.len() ==> #[trigger] r@[k] < 88,
            decreases self.session.completed_notes@.len() - i,
        {
            let ghost prefix = self.session.completed_notes@.take(i as int);
            let ghost next_prefix = self.session.completed_notes@.take(i + 1);
            proof {
                assert(next_prefix.drop_last() =~= prefix);
                assert(next_prefix.last() == self.session.completed_notes@[i as int]);
                lemma_first_index_bound(self.session.completed_notes@[i as int].note@, 0);
            }
            match crate::notes::index_for_display_name(&self.session.completed_notes[i].note) {
                Some(idx) => {
                    r.push(idx);
                },
                None => {},
            }
            i = i + 1;
        }
        proof {
            assert(self.session.completed_notes@.take(
                self.session.completed_notes@.len() as int,
            ) =~= self.session.completed_notes@);
        }
        r
    }

    /// Feed one polling cycle's pitch estimate into the coordinator.
    ///
    /// Estimates under the phase's confidence floor count as silence and
    /// clear the displayed deviation instead of updating it. A confident
    /// estimate updates the displayed frequency and its deviation from the
    /// current target; in calibration it is also collected, and collecting
    /// the target number of samples concludes calibration: the average
    /// becomes the session's effective A4 reference, the piano's offset from
    /// the previous reference is recorded, and tuning begins.
    pub fn feed(&mut self, estimate: Option<PitchResult>)
        requires
            old(self).wf(),
            match estimate {
                Some(p) => 20000 <= p.frequency <= 5000000 && p.confidence <= 1000,
                None => true,
            },
        ensures
            final(self).wf(),
            final(self).order == old(self).order,
            final(self).profile == old(self).profile,
            final(self).profiling_index == old(self).profiling_index,
            !(spec_confident(old(self).state, estimate) && old(self).state is Calibration && old(
                self,
            ).calib_freqs@.len() == 9) ==> final(self).sub_step == old(self).sub_step,
            !spec_confident(old(self).state, estimate) ==> {
                &&& final(self).displayed is None
                &&& final(self).state == old(self).state
                &&& final(self).session == old(self).session
                &&& final(self).calib_freqs@ == old(self).calib_freqs@
            },
            spec_confident(old(self).state, estimate) && (old(self).state is Tuning) ==> {
                &&& final(self).state == old(self).state
                &&& final(self).session == old(self).session
                &&& final(self).displayed == Some(
                    (
                        estimate->Some_0.frequency,
                        spec_cents_from_target(
                            estimate->Some_0.frequency as int,
                            spec_frequency(
                                old(self).current_midi(),
                                old(self).session.a4_reference as int,
                            ),
                        ) as i64,
                    ),
                )
            },
            spec_confident(old(self).state, estimate) && (old(self).state is Profiling) ==> {
                &&& final(self).state == old(self).state
                &&& final(self).session == old(self).session
                &&& final(self).displayed == Some(
                    (
                        estimate->Some_0.frequency,
                        spec_cents_from_target(
                            estimate->Some_0.frequency as int,
                            spec_frequency(
                                21 + old(self).profiling_index as int,
                                old(self).session.a4_reference as int,
                            ),
                        ) as i64,
                    ),
                )
            },
            spec_confident(old(self).state, estimate) && (old(self).state is Calibration) ==> {
                &&& old(self).calib_freqs@.len() < 9 ==> {
                    &&& final(self).state is Calibration
                    &&& final(self).session == old(self).session
                    &&& final(self).calib_freqs@ == old(self).calib_freqs@.push(
                        estimate->Some_0.frequency,
                    )
                    &&& final(self).displayed == Some((estimate->Some_0.frequency, 0i64))
                }
                &&& old(self).calib_freqs@.len() == 9 ==> {
                    &&& final(self).state is Tuning
                    &&& final(self).session.a4_reference == spec_clamped_a4(
                        spec_sum_freqs(old(self).calib_freqs@.push(estimate->Some_0.frequency), 10)
                            / 10,
                    )
                    &&& final(self).session.piano_offset_cents == spec_cents_from_target(
                        final(self).session.a4_reference as int,
                        old(self).session.a4_reference as int,
                    )
                    &&& final(self).session.current_note_index == old(self).session.current_note_index
                    &&& final(self).session.completed_notes@ == old(self).session.completed_notes@
                    &&& final(self).displayed is None
                    &&& final(self).sub_step == spec_first_step(
                        spec_strings(21 + final(self).current_chrom()),
                    )
                }
            },
            (old(self).state is ModeSelect || old(self).state is Complete) ==> {
                &&& final(self).state == old(self).state
                &&& final(self).session == old(self).session
            },
    {
        let confident: bool;
        match &estimate {
            Some(p) => {
                let floor: u32 = if matches!(self.state, AppState::Calibration) {
                    CALIBRATION_CONFIDENCE_FLOOR
                } else {
                    TUNING_CONFIDENCE_FLOOR
                };
                confident = p.confidence >= floor;
            },
            None => {
                confident = false;
            },
        }
        if !confident {
            self.displayed = None;
            return ;
        }
        let p = match estimate {
            Some(p) => p,
            None => {
                return ;
            },
        };
        match self.state {
            AppState::Tuning => {
                let idx = self.session.current_note_index;
                let note = self.order.note_at(idx);
                let target = self.temperament.frequency(note.midi);
                proof {
                    crate::temperament::lemma_frequency_in_range(
                        self.current_midi(),
                        self.session.a4_reference as int,
                    );
                }
                let cents = self.temperament.cents_from_target(p.frequency, target);
                self.displayed = Some((p.frequency, cents));
            },
            AppState::Profiling => {
                let note = Note::for_index(self.profiling_index);
                let target = self.temperament.frequency(note.midi);
                proof {
                    crate::temperament::lemma_frequency_in_range(
                        21 + self.profiling_index as int,
                        self.session.a4_reference as int,
                    );
                }
                let cents = self.temperament.cents_from_target(p.frequency, target);
                self.displayed = Some((p.frequency, cents));
            },
            AppState::Calibration => {
                self.calib_freqs.push(p.frequency);
                if self.calib_freqs.len() >= CALIBRATION_TARGET {
                    let raw = Self::average_freq(&self.calib_freqs);
                    let avg: u64 = if raw < 100000 {
                        100000
                    } else if raw > 1000000 {
                        1000000
                    } else {
                        raw
                    };
                    let offset = self.temperament.cents_from_target(avg, self.session.a4_reference);
                    self.session.a4_reference = avg;
                    self.session.piano_offset_cents = offset;
                    self.temperament = Temperament::with_a4(avg);
                    self.calib_freqs = Vec::new();
                    self.state = AppState::Tuning;
                    self.sub_step = Self::first_step_at(&self.order, self.session.current_note_index);
                    self.displayed = None;
                } else {
                    self.displayed = Some((p.frequency, 0));
                }
            },
            _ => {
                self.displayed = None;
            },
        }
    }

    /// The average of the collected calibration frequencies, in millihertz.
    fn average_freq(freqs: &Vec<u64>) -> (avg: u64)
        requires
            freqs@.len() == 10,
            forall|i: int| 0 <= i < 10 ==> 20000 <= #[trigger] freqs@[i] <= 5000000,
        ensures
            avg == spec_sum_freqs(freqs@, 10) / 10,
            20000 <= avg <= 5000000,
    {
        let mut sum: u64 = 0;
        let mut i: usize = 0;
        while i < 10
            invariant
                freqs@.len() == 10,
                forall|k: int| 0 <= k < 10 ==> 20000 <= #[trigger] freqs@[k] <= 5000000,
                i <= 10,
                sum == spec_sum_freqs(freqs@, i as int),
                i as int * 20000 <= sum <= i as int * 5000000,
            decreases 10 - i,
        {
            sum = sum + freqs[i];
            i = i + 1;
        }
        let avg = sum / 10;
        proof {
            assert(200000 <= sum <= 50000000);
        }
        avg
    }

    /// Confirm the current step.
    ///
    /// While the current note has a remaining sub-step only the sub-step
    /// advances and the session is untouched. At the last sub-step the
    /// completion is recorded under the note's display name with the
    /// displayed deviation (zero if none is shown) and the cursor advances;
    /// passing the last position of the order completes the session. During
    /// profiling a shown measurement is recorded for the current key and
    /// profiling moves on; measuring all 88 keys derives the worst-first
    /// order from the profile and tuning begins with it.
    pub fn confirm(&mut self)
        requires
            old(self).wf(),
            old(self).session.completed_notes@.len() < 1000000,
        ensures
            final(self).wf(),
            (old(self).state is ModeSelect || old(self).state is Complete || old(self).state is Calibration) ==> *final(self) == *old(self),
            old(self).state is Tuning ==> final(self).order == old(self).order,
            // A remaining sub-step: only the sub-step moves (a trichord takes
            // four confirms and the first three leave the session alone).
            old(self).state is Tuning && (match old(self).sub_step {
                Some(st) => spec_next(st) is Some,
                None => false,
            }) ==> {
                &&& final(self).state is Tuning
                &&& final(self).session == old(self).session
                &&& final(self).sub_step == spec_next(old(self).sub_step->Some_0)
                &&& final(self).displayed == old(self).displayed
            },
            // The terminal sub-step (or a monochord): the completion is
            // recorded and the cursor advances; the order's end completes
            // the session, exactly then.
            old(self).state is Tuning && (match old(self).sub_step {
                Some(st) => spec_next(st) is None,
                None => true,
            }) ==> {
                &&& final(self).session.completed_notes@.len() == old(self).session.completed_notes@.len() + 1
                &&& final(self).session.completed_notes@.last().note@ == spec_display_name(
                    old(self).current_midi(),
                )
                &&& final(self).session.completed_notes@.last().final_cents == (match old(self).displayed {
                    Some(fc) => fc.1,
                    None => 0i64,
                })
                &&& forall|i: int|
                    0 <= i < old(self).session.completed_notes@.len()
                        ==> #[trigger] final(self).session.completed_notes@[i]
                        == old(self).session.completed_notes@[i]
                &&& final(self).session.current_note_index == old(self).session.current_note_index + 1
                &&& (final(self).state is Complete <==> old(self).session.current_note_index
                    == 87)
                &&& (old(self).session.current_note_index < 87 ==> final(self).state is Tuning)
                &&& final(self).displayed is None
                &&& (final(self).state is Tuning ==> final(self).sub_step == spec_first_step(
                    spec_strings(21 + final(self).current_chrom()),
                ))
                &&& (final(self).state is Complete ==> final(self).sub_step is None)
                &&& (old(self).session.completed_notes@.len() == old(self).session.current_note_index ==> final(self).session.completed_notes@.len()
                    == final(self).session.current_note_index)
                &&& (final(self).state is Complete && old(self).session.completed_notes@.len()
                    == old(self).session.current_note_index ==> final(self).session.completed_notes@.len() == 88)
            },
            // Profiling: a shown measurement fills the key's slot, the pass
            // moves to the next key, and finishing the last key derives the
            // worst-first order and starts tuning with it.
            old(self).state is Profiling ==> {
                &&& final(self).session.completed_notes@ == old(self).session.completed_notes@
                &&& final(self).session.current_note_index == old(self).session.current_note_index
                &&& final(self).profiling_index == old(self).profiling_index + 1
                &&& final(self).displayed is None
                &&& (match old(self).displayed {
                    Some(fc) => {
                        &&& (match final(self).profile.notes@[old(self).profiling_index as int] {
                            Some(p) => p.midi == 21 + old(self).profiling_index && p.frequency
                                == fc.0 && p.cents == fc.1,
                            None => false,
                        })
                        &&& forall|i: int|
                            0 <= i < 88 && i != old(self).profiling_index
                                ==> #[trigger] final(self).profile.notes@[i]
                                == old(self).profile.notes@[i]
                    },
                    None => final(self).profile.notes@ == old(self).profile.notes@,
                })
                &&& (old(self).profiling_index == 87 ==> {
                    &&& final(self).state is Tuning
                    &&& final(self).order.kind == OrderKind::ProfileDriven
                    &&& forall|p: int, q: int|
                        13 <= p < q < 88 ==> order_before(
                            spec_profile_devs(final(self).profile.notes@),
                            #[trigger] final(self).order.positions@[p] as int,
                            #[trigger] final(self).order.positions@[q] as int,
                        )
                })
                &&& (old(self).profiling_index < 87 ==> final(self).state is Profiling
                    && final(self).order == old(self).order)
            },
    {
        match self.state {
            AppState::Tuning => {
                let advance_only: Option<TuningStep> = match &self.sub_step {
                    Some(st) => st.next(),
                    None => None,
                };
                if advance_only.is_some() {
                    self.sub_step = advance_only;
                    return ;
                }
                let idx = self.session.current_note_index;
                let note = self.order.note_at(idx);
                let name = note.display_name();
                let cents: i64 = match &self.displayed {
                    Some(fc) => fc.1,
                    None => 0,
                };
                self.session.record_completion(name, cents);
                self.displayed = None;
                if self.session.current_note_index >= 88 {
                    self.state = AppState::Complete;
                    self.sub_step = None;
                } else {
                    self.sub_step = Self::first_step_at(&self.order, self.session.current_note_index);
                }
            },
            AppState::Profiling => {
                match &self.displayed {
                    Some(fc) => {
                        let note = Note::for_index(self.profiling_index);
                        self.profile.record_note(note.midi, fc.0, fc.1);
                    },
                    None => {},
                }
                self.profiling_index = self.profiling_index + 1;
                self.displayed = None;
                if self.profiling_index >= 88 {
                    let devs = self.profile.deviations();
                    self.order = TuningOrder::from_deviations(&devs);
                    self.state = AppState::Tuning;
                    self.sub_step = Self::first_step_at(&self.order, self.session.current_note_index);
                }
            },
            _ => {},
        }
    }

    /// Skip the current note: record it with the zero-centicent sentinel
    /// and advance exactly as a terminal confirm does, bypassing any
    /// remaining sub-steps. During profiling the key's slot is left empty.
    pub fn skip(&mut self)
        requires
            old(self).wf(),
            old(self).session.completed_notes@.len() < 1000000,
        ensures
            final(self).wf(),
            (old(self).state is ModeSelect || old(self).state is Complete || old(self).state is Calibration) ==> *final(self) == *old(self),
            old(self).state is Tuning ==> {
                &&& final(self).order == old(self).order
                &&& final(self).session.completed_notes@.len() == old(self).session.completed_notes@.len() + 1
                &&& final(self).session.completed_notes@.last().note@ == spec_display_name(
                    old(self).current_midi(),
                )
                &&& final(self).session.completed_notes@.last().final_cents == 0
                &&& forall|i: int|
                    0 <= i < old(self).session.completed_notes@.len()
                        ==> #[trigger] final(self).session.completed_notes@[i]
                        == old(self).session.completed_notes@[i]
                &&& final(self).session.current_note_index == old(self).session.current_note_index + 1
                &&& (final(self).state is Complete <==> old(self).session.current_note_index
                    == 87)
                &&& final(self).displayed is None
                &&& (final(self).state is Tuning ==> final(self).sub_step == spec_first_step(
                    spec_strings(21 + final(self).current_chrom()),
                ))
                &&& (final(self).state is Complete ==> final(self).sub_step is None)
            },
            old(self).state is Profiling ==> {
                &&& final(self).profile.notes@ == old(self).profile.notes@
                &&& final(self).profiling_index == old(self).profiling_index + 1
                &&& final(self).session.completed_notes@ == old(self).session.completed_notes@
                &&& (old(self).profiling_index < 87 ==> final(self).state is Profiling)
                &&& (old(self).profiling_index == 87 ==> final(self).state is Tuning)
            },
    {
        match self.state {
            AppState::Tuning => {
                let idx = self.session.current_note_index;
                let note = self.order.note_at(idx);
                let name = note.display_name();
                self.session.record_completion(name, 0);
                self.displayed = None;
                if self.session.current_note_index >= 88 {
                    self.state = AppState::Complete;
                    self.sub_step = None;
                } else {
                    self.sub_step = Self::first_step_at(&self.order, self.session.current_note_index);
                }
            },
            AppState::Profiling => {
                self.profiling_index = self.profiling_index + 1;
                self.displayed = None;
                if self.profiling_index >= 88 {
                    let devs = self.profile.deviations();
                    self.order = TuningOrder::from_deviations(&devs);
                    self.state = AppState::Tuning;
                    self.sub_step = Self::first_step_at(&self.order, self.session.current_note_index);
                }
            },
            _ => {},
        }
    }

    /// Step backward. Within a note the sub-step retreats first; at a
    /// note's first step the cursor moves back one position and re-enters
    /// that note at its last sub-step. At the very first note and step this
    /// is a no-op.
    pub fn back(&mut self)
        requires
            old(self).wf(),
        ensures
            final(self).wf(),
            (old(self).state is ModeSelect || old(self).state is Complete || old(self).state is Calibration) ==> *final(self) == *old(self),
            old(self).state is Tuning ==> final(self).order == old(self).order && final(self).session.completed_notes@ == old(self).session.completed_notes@,
            // Within the note.
            old(self).state is Tuning && (match old(self).sub_step {
                Some(st) => spec_prev(st) is Some,
                None => false,
            }) ==> {
                &&& final(self).session == old(self).session
                &&& final(self).sub_step == spec_prev(old(self).sub_step->Some_0)
                &&& final(self).state is Tuning
            },
            // At the first step of the very first note: a no-op.
            old(self).state is Tuning && (match old(self).sub_step {
                Some(st) => spec_prev(st) is None,
                None => true,
            }) && old(self).session.current_note_index == 0 ==> *final(self) == *old(self),
            // At the first step of a later note: re-enter the previous note
            // at its last sub-step.
            old(self).state is Tuning && (match old(self).sub_step {
                Some(st) => spec_prev(st) is None,
                None => true,
            }) && old(self).session.current_note_index > 0 ==> {
                &&& final(self).session.current_note_index == old(self).session.current_note_index - 1
                &&& final(self).state is Tuning
                &&& final(self).sub_step == spec_last_step(
                    spec_strings(21 + final(self).current_chrom()),
                )
                &&& final(self).displayed is None
            },
            old(self).state is Profiling ==> {
                &&& old(self).profiling_index == 0 ==> *final(self) == *old(self)
                &&& old(self).profiling_index > 0 ==> {
                    &&& final(self).profiling_index == old(self).profiling_index - 1
                    &&& final(self).state is Profiling
                    &&& final(self).displayed is None
                }
            },
    {
        match self.state {
            AppState::Tuning => {
                let retreat: Option<TuningStep> = match &self.sub_step {
                    Some(st) => st.prev(),
                    None => None,
                };
                if retreat.is_some() {
                    self.sub_step = retreat;
                    return ;
                }
                if self.session.current_note_index > 0 {
                    self.session.step_back();
                    let note = self.order.note_at(self.session.current_note_index);
                    self.sub_step = TuningStep::last_for_strings(note.strings);
                    self.displayed = None;
                }
            },
            AppState::Profiling => {
                if self.profiling_index > 0 {
                    self.profiling_index = self.profiling_index - 1;
                    self.displayed = None;
                }
            },
            _ => {},
        }
    }

    /// The note under the cursor.
    pub fn current_note(&self) -> (n: Note)
        requires
            self.wf(),
            self.state is Tuning,
        ensures
            is_note_for(n, self.current_midi()),
    {
        self.order.note_at(self.session.current_note_index)
    }

    /// The target frequency of the note under the cursor, in millihertz.
    pub fn target_frequency(&self) -> (f: u64)
        requires
            self.wf(),
            self.state is Tuning,
        ensures
            f == spec_frequency(self.current_midi(), self.session.a4_reference as int),
    {
        let note = self.order.note_at(self.session.current_note_index);
        self.temperament.frequency(note.midi)
    }

    /// The displayed deviation in centicents, if a confident estimate is
    /// being shown.
    pub fn displayed_cents(&self) -> (r: Option<i64>)
        ensures
            r == match self.displayed {
                Some(fc) => Some(fc.1),
                None => None::<i64>,
            },
    {
        match &self.displayed {
            Some(fc) => Some(fc.1),
            None => None,
        }
    }

    /// Progress as (current position, total): the tuning cursor, or the
    /// profiling key while profiling.
    pub fn progress(&self) -> (r: (usize, usize))
        ensures
            r.1 == 88,
            self.state is Profiling ==> r.0 == self.profiling_index,
            !(self.state is Profiling) ==> r.0 == self.session.current_note_index,
    {
        if matches!(self.state, AppState::Profiling) {
            (self.profiling_index, 88)
        } else {
            (self.session.current_note_index, 88)
        }
    }
}

/// The first matching index for a name is a chromatic index below 88 when
/// one exists at all.
proof fn lemma_first_index_bound(name: Seq<char>, i: int)
    requires
        0 <= i,
    ensures
        first_index_of_name(name, i) == -1 || i <= first_index_of_name(name, i) < 88,
    decreases (if 88 - i >= 0 { 88 - i } else { 0 }),
{
    if i < 88 && !(spec_display_name(21 + i) == name) {
        lemma_first_index_bound(name, i + 1);
    }
}

} // verus!
