//! Per-screen state for the application: what each phase of the interface
//! shows and how user input moves it. Drawing these states to a terminal is
//! a presentation collaborator's concern; everything here is plain data and
//! transitions.

use vstd::prelude::*;
use crate::coordinator::AppState;
use crate::notes::{Note, is_note_for};
use crate::order::spec_abs;
use crate::profile::{PianoProfile, count_some};
use crate::session::{CompletedNote, Session};
use crate::steps::{TuningStep, spec_next, spec_prev};

verus! {

/// Main application shell: the current screen and the live session.
pub struct App {
    /// Current screen state.
    pub state: AppState,
    /// The active session, once one has started.
    pub session: Option<Session>,
    /// Whether the user asked to quit.
    pub should_quit: bool,
}

impl App {
    /// Create a new application at the mode-select screen.
    pub fn new() -> (a: Self)
        ensures
            a.state == AppState::ModeSelect,
            a.session is None,
            !a.should_quit,
    {
        App { state: AppState::ModeSelect, session: None, should_quit: false }
    }

    /// Get the current state.
    pub fn state(&self) -> (r: AppState)
        ensures
            r == self.state,
    {
        self.state
    }

    /// Set the state.
    pub fn set_state(&mut self, state: AppState)
        ensures
            final(self).state == state,
            final(self).session == old(self).session,
            final(self).should_quit == old(self).should_quit,
    {
        self.state = state;
    }

    /// Get the current session.
    pub fn session(&self) -> (r: &Option<Session>)
        ensures
            r == self.session,
    {
        &self.session
    }

    /// Set the session.
    pub fn set_session(&mut self, session: Session)
        ensures
            final(self).session == Some(session),
            final(self).state == old(self).state,
            final(self).should_quit == old(self).should_quit,
    {
        self.session = Some(session);
    }

    /// Check if the app should quit.
    pub fn should_quit(&self) -> (r: bool)
        ensures
            r == self.should_quit,
    {
        self.should_quit
    }

    /// Request quit.
    pub fn quit(&mut self)
        ensures
            final(self).should_quit,
            final(self).state == old(self).state,
            final(self).session == old(self).session,
    {
        self.should_quit = true;
    }
}

impl Default for App {
    /// A fresh application sits at mode selection.
    fn default() -> (a: Self)
        ensures
            a.state == AppState::ModeSelect,
            a.session is None,
            !a.should_quit,
    {
        App::new()
    }
}

/// Selected tuning mode on the mode-select screen.
#[derive(Debug, Clone, Copy, PartialEq, Eq, Structural)]
pub enum SelectedMode {
    /// Quick tune relative to the piano's pitch center.
    QuickTune,
    /// Concert pitch tuning.
    ConcertPitch,
    /// Profile first, then tune worst-first.
    ProfileFirst,
}

/// Mode selection screen.
pub struct ModeSelectScreen {
    /// The highlighted choice.
    pub selected: SelectedMode,
}

impl ModeSelectScreen {
    /// Create a new mode select screen.
    pub fn new() -> (r: Self)
        ensures
            r.selected == SelectedMode::QuickTune,
    {
        ModeSelectScreen { selected: SelectedMode::QuickTune }
    }

    /// Get the currently selected mode.
    pub fn selected(&self) -> (r: SelectedMode)
        ensures
            r == self.selected,
    {
        self.selected
    }

    /// Cycle to the next mode.
    pub fn next(&mut self)
        ensures
            final(self).selected == match old(self).selected {
                SelectedMode::QuickTune => SelectedMode::ConcertPitch,
                SelectedMode::ConcertPitch => SelectedMode::ProfileFirst,
                SelectedMode::ProfileFirst => SelectedMode::QuickTune,
            },
    {
        self.selected = match self.selected {
            SelectedMode::QuickTune => SelectedMode::ConcertPitch,
            SelectedMode::ConcertPitch => SelectedMode::ProfileFirst,
            SelectedMode::ProfileFirst => SelectedMode::QuickTune,
        };
    }
}

impl Default for ModeSelectScreen {
    /// Quick tune is offered first.
    fn default() -> (r: Self)
        ensures
            r.selected == SelectedMode::QuickTune,
    {
        ModeSelectScreen::new()
    }
}

/// Progress indicator state: position within the pass.
pub struct Progress {
    /// Current position, zero-based.
    pub current: usize,
    /// Total number of steps in the pass.
    pub total: usize,
    /// Display name of the current note.
    pub note_name: String,
}

impl Progress {
    /// Create a new progress indicator.
    pub fn new(current: usize, total: usize, note_name: String) -> (r: Self)
        ensures
            r.current == current,
            r.total == total,
            r.note_name@ == note_name@,
    {
        Progress { current, total, note_name }
    }
}

/// How far off target a deviation is, for meter and key coloring.
#[derive(Debug, Clone, Copy, PartialEq, Eq, Structural)]
pub enum TuneBand {
    /// Within the in-tune tolerance.
    InTune,
    /// Slightly out of tune.
    Warning,
    /// Clearly out of tune.
    OutOfTune,
}

/// Classify a deviation in centicents: within five cents is in tune, within
/// fifteen is a warning, beyond that is out of tune.
pub fn band_for_cents(cents: i64) -> (r: TuneBand)
    requires
        -1000000000 <= cents <= 1000000000,
    ensures
        r == (if spec_abs(cents as int) <= 500 {
            TuneBand::InTune
        } else if spec_abs(cents as int) <= 1500 {
            TuneBand::Warning
        } else {
            TuneBand::OutOfTune
        }),
{
    let a = crate::order::abs_centicents(cents);
    if a <= 500 {
        TuneBand::InTune
    } else if a <= 1500 {
        TuneBand::Warning
    } else {
        TuneBand::OutOfTune
    }
}

/// Box-drawing characters for the meter.
pub struct BoxChars;

impl BoxChars {
    /// Vertical bar characters for the eight partial fill levels.
    pub const BLOCKS: [char; 8] = ['▏', '▎', '▍', '▌', '▋', '▊', '▉', '█'];

    /// Thin vertical line.
    pub const THIN_VERTICAL: char = '┊';

    /// Thick vertical line (center of the meter).
    pub const THICK_VERTICAL: char = '┃';
}

/// Cents deviation meter state.
pub struct Meter {
    /// Current deviation from target in centicents.
    pub cents: i64,
    /// Tolerance threshold in centicents.
    pub tolerance: i64,
}

impl Meter {
    /// Create a new meter with the default five-cent tolerance.
    pub fn new(cents: i64) -> (r: Self)
        ensures
            r.cents == cents,
            r.tolerance == 500,
    {
        Meter { cents, tolerance: 500 }
    }

    /// Set the tolerance threshold in centicents.
    pub fn tolerance(self, tolerance: i64) -> (r: Self)
        ensures
            r.cents == self.cents,
            r.tolerance == tolerance,
    {
        Meter { cents: self.cents, tolerance }
    }
}

/// Main tuning screen state.
pub struct TuningScreen {
    /// Current note display name.
    pub note_name: String,
    /// Current note index in the tuning order.
    pub note_index: usize,
    /// Chromatic note index (0 = A0, 87 = C8) for the piano display.
    pub chromatic_index: usize,
    /// Total notes to tune.
    pub total_notes: usize,
    /// Target frequency in millihertz.
    pub target_freq: u64,
    /// Detected frequency in millihertz, if any.
    pub detected_freq: Option<u64>,
    /// Deviation from target in centicents.
    pub cents_deviation: i64,
    /// Number of strings for this note.
    pub string_count: u8,
    /// Current tuning step (for multi-string notes).
    pub tuning_step: Option<TuningStep>,
    /// Whether to show the piano progress view.
    pub show_piano_progress: bool,
    /// Completed chromatic indices for the progress view.
    pub completed_notes: Vec<usize>,
}

impl TuningScreen {
    /// The deviation stays within the conversion range.
    pub open spec fn wf(&self) -> bool {
        -1000000000 <= self.cents_deviation <= 1000000000
    }

    /// Create a new tuning screen for a note, opening at the note's first
    /// sub-step.
    pub fn new(
        note_name: String,
        note_index: usize,
        total_notes: usize,
        target_freq: u64,
        string_count: u8,
        midi: u8,
    ) -> (r: Self)
        requires
            21 <= midi <= 108,
        ensures
            r.wf(),
            r.note_name@ == note_name@,
            r.note_index == note_index,
            r.chromatic_index == midi - 21,
            r.total_notes == total_notes,
            r.target_freq == target_freq,
            r.detected_freq is None,
            r.cents_deviation == 0,
            r.string_count == string_count,
            r.tuning_step == match string_count {
                2u8 => Some(TuningStep::MuteBichord),
                3u8 => Some(TuningStep::MuteOuter),
                _ => None::<TuningStep>,
            },
            !r.show_piano_progress,
            r.completed_notes@.len() == 0,
    {
        let tuning_step = TuningStep::first_for_strings(string_count);
        TuningScreen {
            note_name,
            note_index,
            chromatic_index: (midi - 21) as usize,
            total_notes,
            target_freq,
            detected_freq: None,
            cents_deviation: 0,
            string_count,
            tuning_step,
            show_piano_progress: false,
            completed_notes: Vec::new(),
        }
    }

    /// Toggle the piano progress display.
    pub fn toggle_piano_progress(&mut self)
        ensures
            final(self).show_piano_progress == !old(self).show_piano_progress,
            final(self).tuning_step == old(self).tuning_step,
            final(self).cents_deviation == old(self).cents_deviation,
    {
        self.show_piano_progress = !self.show_piano_progress;
    }

    /// Set the completed notes for the progress display.
    pub fn set_completed_notes(&mut self, completed: Vec<usize>)
        ensures
            final(self).completed_notes@ == completed@,
            final(self).tuning_step == old(self).tuning_step,
    {
        self.completed_notes = completed;
    }

    /// Get the note index.
    pub fn note_index(&self) -> (r: usize)
        ensures
            r == self.note_index,
    {
        self.note_index
    }

    /// Update with a detected pitch: frequency in millihertz and deviation
    /// in centicents.
    pub fn update(&mut self, freq: u64, cents: i64)
        requires
            -1000000000 <= cents <= 1000000000,
        ensures
            final(self).wf(),
            final(self).detected_freq == Some(freq),
            final(self).cents_deviation == cents,
            final(self).tuning_step == old(self).tuning_step,
    {
        self.detected_freq = Some(freq);
        self.cents_deviation = cents;
    }

    /// Clear the detected pitch (silence or no confident estimate).
    pub fn clear(&mut self)
        ensures
            final(self).wf(),
            final(self).detected_freq is None,
            final(self).cents_deviation == 0,
            final(self).tuning_step == old(self).tuning_step,
    {
        self.detected_freq = None;
        self.cents_deviation = 0;
    }

    /// Get the current deviation in centicents.
    pub fn cents(&self) -> (r: i64)
        ensures
            r == self.cents_deviation,
    {
        self.cents_deviation
    }

    /// Check if this is a trichord note.
    pub fn is_trichord(&self) -> (r: bool)
        ensures
            r == (self.string_count == 3),
    {
        self.string_count == 3
    }

    /// Check if this is a bichord note.
    pub fn is_bichord(&self) -> (r: bool)
        ensures
            r == (self.string_count == 2),
    {
        self.string_count == 2
    }

    /// Check if this note has multiple strings.
    pub fn is_multi_string(&self) -> (r: bool)
        ensures
            r == (self.string_count >= 2),
    {
        self.string_count >= 2
    }

    /// Get the current tuning step.
    pub fn tuning_step(&self) -> (r: Option<TuningStep>)
        ensures
            r == self.tuning_step,
    {
        self.tuning_step
    }

    /// Advance to the next tuning step; reports whether a step remained.
    pub fn next_step(&mut self) -> (advanced: bool)
        ensures
            final(self).note_index == old(self).note_index,
            final(self).cents_deviation == old(self).cents_deviation,
            final(self).detected_freq == old(self).detected_freq,
            match old(self).tuning_step {
                Some(st) => match spec_next(st) {
                    Some(nx) => advanced && final(self).tuning_step == Some(nx),
                    None => !advanced && final(self).tuning_step == old(self).tuning_step,
                },
                None => !advanced && final(self).tuning_step == old(self).tuning_step,
            },
    {
        match &self.tuning_step {
            Some(step) => {
                match step.next() {
                    Some(next) => {
                        self.tuning_step = Some(next);
                        true
                    },
                    None => false,
                }
            },
            None => false,
        }
    }

    /// Go back to the previous tuning step; reports whether one existed.
    pub fn prev_step(&mut self) -> (retreated: bool)
        ensures
            final(self).note_index == old(self).note_index,
            match old(self).tuning_step {
                Some(st) => match spec_prev(st) {
                    Some(pv) => retreated && final(self).tuning_step == Some(pv),
                    None => !retreated && final(self).tuning_step == old(self).tuning_step,
                },
                None => !retreated && final(self).tuning_step == old(self).tuning_step,
            },
    {
        match &self.tuning_step {
            Some(step) => {
                match step.prev() {
                    Some(prev) => {
                        self.tuning_step = Some(prev);
                        true
                    },
                    None => false,
                }
            },
            None => false,
        }
    }

    /// Check if this note's tuning is complete: a pitch is being detected
    /// within five cents of target, at the last sub-step for multi-string
    /// notes.
    pub fn is_complete(&self) -> (r: bool)
        requires
            self.wf(),
        ensures
            r == ({
                let settled = self.detected_freq is Some && spec_abs(self.cents_deviation as int)
                    <= 500;
                if self.string_count == 3 {
                    self.tuning_step == Some(TuningStep::TuneRight) && settled
                } else if self.string_count == 2 {
                    self.tuning_step == Some(TuningStep::TuneBichord) && settled
                } else {
                    settled
                }
            }),
    {
        let near = crate::order::abs_centicents(self.cents_deviation) <= 500;
        let settled = self.detected_freq.is_some() && near;
        if self.string_count == 3 {
            matches!(self.tuning_step, Some(TuningStep::TuneRight)) && settled
        } else if self.string_count == 2 {
            matches!(self.tuning_step, Some(TuningStep::TuneBichord)) && settled
        } else {
            settled
        }
    }

    /// Get the note display name.
    pub fn note_name(&self) -> (r: &String)
        ensures
            r == self.note_name,
    {
        &self.note_name
    }

    /// Get the target frequency in millihertz.
    pub fn target_freq(&self) -> (r: u64)
        ensures
            r == self.target_freq,
    {
        self.target_freq
    }
}

/// Profiling screen: visits all 88 keys in chromatic order and records one
/// measurement per confirmation.
pub struct ProfilingScreen {
    /// Current chromatic index (0 = A0 through 87 = C8).
    pub current_note_idx: usize,
    /// Current detected frequency in millihertz.
    pub current_freq: Option<u64>,
    /// Current deviation in centicents.
    pub current_cents: Option<i64>,
    /// The profile being built.
    pub profile: PianoProfile,
    /// Whether to show the piano progress view.
    pub show_piano: bool,
}

impl ProfilingScreen {
    /// The cursor stays on the keyboard (88 means done) and any shown
    /// measurement is in range.
    pub open spec fn wf(&self) -> bool {
        &&& self.current_note_idx <= 88
        &&& self.profile.wf()
        &&& match self.current_freq {
            Some(f) => 1 <= f <= 10000000,
            None => true,
        }
        &&& match self.current_cents {
            Some(c) => -1000000000 <= c <= 1000000000,
            None => true,
        }
    }

    /// Create a new profiling screen at the lowest key.
    pub fn new() -> (r: Self)
        ensures
            r.wf(),
            r.current_note_idx == 0,
            r.current_freq is None,
            r.current_cents is None,
            count_some(r.profile.notes@, 88) == 0,
            r.show_piano,
    {
        ProfilingScreen {
            current_note_idx: 0,
            current_freq: None,
            current_cents: None,
            profile: PianoProfile::new(),
            show_piano: true,
        }
    }

    /// Get the current note to profile.
    pub fn current_note(&self) -> (n: Note)
        requires
            self.current_note_idx < 88,
        ensures
            is_note_for(n, 21 + self.current_note_idx),
    {
        Note::for_index(self.current_note_idx)
    }

    /// Get the current note index.
    pub fn current_note_idx(&self) -> (r: usize)
        ensures
            r == self.current_note_idx,
    {
        self.current_note_idx
    }

    /// Update with a detected pitch.
    pub fn update(&mut self, freq: u64, cents: i64)
        requires
            old(self).wf(),
            1 <= freq <= 10000000,
            -1000000000 <= cents <= 1000000000,
        ensures
            final(self).wf(),
            final(self).current_freq == Some(freq),
            final(self).current_cents == Some(cents),
            final(self).profile == old(self).profile,
            final(self).current_note_idx == old(self).current_note_idx,
    {
        self.current_freq = Some(freq);
        self.current_cents = Some(cents);
    }

    /// Clear the detected pitch (silence).
    pub fn clear(&mut self)
        requires
            old(self).wf(),
        ensures
            final(self).wf(),
            final(self).current_freq is None,
            final(self).current_cents is None,
            final(self).profile == old(self).profile,
            final(self).current_note_idx == old(self).current_note_idx,
    {
        self.current_freq = None;
        self.current_cents = None;
    }

    /// Confirm the current note: a shown measurement is recorded into its
    /// slot exactly as displayed, the cursor moves on, and the display
    /// clears. Returns whether profiling is now complete.
    pub fn confirm_note(&mut self) -> (done: bool)
        requires
            old(self).wf(),
            old(self).current_note_idx < 88,
        ensures
            final(self).wf(),
            final(self).current_note_idx == old(self).current_note_idx + 1,
            final(self).current_freq is None,
            final(self).current_cents is None,
            done == (final(self).current_note_idx >= 88),
            (old(self).current_freq is Some && old(self).current_cents is Some) ==> {
                &&& (match final(self).profile.notes@[old(self).current_note_idx as int] {
                    Some(p) => {
                        &&& p.midi == 21 + old(self).current_note_idx
                        &&& p.frequency == old(self).current_freq->Some_0
                        &&& p.cents == old(self).current_cents->Some_0
                    },
                    None => false,
                })
                &&& forall|i: int|
                    0 <= i < 88 && i != old(self).current_note_idx
                        ==> #[trigger] final(self).profile.notes@[i] == old(self).profile.notes@[i]
            },
            !(old(self).current_freq is Some && old(self).current_cents is Some) ==> final(self).profile.notes@ == old(self).profile.notes@,
    {
        if self.current_freq.is_some() && self.current_cents.is_some() {
            let freq = match self.current_freq {
                Some(f) => f,
                None => 1,
            };
            let cents = match self.current_cents {
                Some(c) => c,
                None => 0,
            };
            let note = Note::for_index(self.current_note_idx);
            self.profile.record_note(note.midi, freq, cents);
        }
        self.current_note_idx = self.current_note_idx + 1;
        self.current_freq = None;
        self.current_cents = None;
        self.is_complete()
    }

    /// Skip the current note without recording; its slot stays empty.
    /// Returns whether profiling is now complete.
    pub fn skip_note(&mut self) -> (done: bool)
        requires
            old(self).wf(),
            old(self).current_note_idx < 88,
        ensures
            final(self).wf(),
            final(self).current_note_idx == old(self).current_note_idx + 1,
            final(self).current_freq is None,
            final(self).current_cents is None,
            final(self).profile == old(self).profile,
            done == (final(self).current_note_idx >= 88),
    {
        self.current_note_idx = self.current_note_idx + 1;
        self.current_freq = None;
        self.current_cents = None;
        self.is_complete()
    }

    /// Go back to the previous note, stopping at the first; moving the
    /// cursor clears the shown measurement.
    pub fn go_back(&mut self)
        requires
            old(self).wf(),
        ensures
            final(self).wf(),
            final(self).profile == old(self).profile,
            old(self).current_note_idx == 0 ==> *final(self) == *old(self),
            old(self).current_note_idx > 0 ==> {
                &&& final(self).current_note_idx == old(self).current_note_idx - 1
                &&& final(self).current_freq is None
                &&& final(self).current_cents is None
            },
    {
        if self.current_note_idx > 0 {
            self.current_note_idx = self.current_note_idx - 1;
            self.current_freq = None;
            self.current_cents = None;
        }
    }

    /// Check if profiling is complete (all 88 notes visited).
    pub fn is_complete(&self) -> (r: bool)
        ensures
            r == (self.current_note_idx >= 88),
    {
        self.current_note_idx >= 88
    }

    /// Take the completed profile.
    pub fn take_profile(self) -> (p: PianoProfile)
        ensures
            p == self.profile,
    {
        self.profile
    }

    /// Get a reference to the profile.
    pub fn profile(&self) -> (p: &PianoProfile)
        ensures
            p == self.profile,
    {
        &self.profile
    }

    /// Get progress as (current, total).
    pub fn progress(&self) -> (r: (usize, usize))
        ensures
            r.0 == self.current_note_idx,
            r.1 == 88,
    {
        (self.current_note_idx, 88)
    }

    /// Toggle the piano display.
    pub fn toggle_piano(&mut self)
        ensures
            final(self).show_piano == !old(self).show_piano,
            final(self).profile == old(self).profile,
            final(self).current_note_idx == old(self).current_note_idx,
    {
        self.show_piano = !self.show_piano;
    }
}

impl Default for ProfilingScreen {
    /// A fresh profiling pass starts at A0 with an empty profile.
    fn default() -> (r: Self)
        ensures
            r.wf(),
            r.current_note_idx == 0,
    {
        ProfilingScreen::new()
    }
}

/// Calibration screen: collects confident frequency readings until the
/// target count is reached.
pub struct CalibrationScreen {
    /// The most recent detected frequency in millihertz.
    pub detected_freq: Option<u64>,
    /// How many confident samples have been collected.
    pub samples_collected: usize,
    /// How many samples conclude calibration.
    pub target_samples: usize,
}

impl CalibrationScreen {
    /// Create a new calibration screen collecting ten samples.
    pub fn new() -> (r: Self)
        ensures
            r.detected_freq is None,
            r.samples_collected == 0,
            r.target_samples == 10,
    {
        CalibrationScreen { detected_freq: None, samples_collected: 0, target_samples: 10 }
    }

    /// Record a detected frequency in millihertz.
    pub fn update(&mut self, freq: u64)
        requires
            old(self).samples_collected < 1000000,
        ensures
            final(self).detected_freq == Some(freq),
            final(self).samples_collected == old(self).samples_collected + 1,
            final(self).target_samples == old(self).target_samples,
    {
        self.detected_freq = Some(freq);
        self.samples_collected = self.samples_collected + 1;
    }

    /// Check if calibration has collected its target sample count.
    pub fn is_complete(&self) -> (r: bool)
        ensures
            r == (self.samples_collected >= self.target_samples),
    {
        self.samples_collected >= self.target_samples
    }

    /// Get the final detected frequency, if any reading arrived.
    pub fn result(&self) -> (r: Option<u64>)
        ensures
            r == self.detected_freq,
    {
        self.detected_freq
    }
}

impl Default for CalibrationScreen {
    /// A fresh calibration has no reading yet.
    fn default() -> (r: Self)
        ensures
            r.detected_freq is None,
            r.samples_collected == 0,
            r.target_samples == 10,
    {
        CalibrationScreen::new()
    }
}

/// Sum of absolute final deviations over the first `n` completion records,
/// in centicents.
pub open spec fn sum_abs_final_cents(s: Seq<CompletedNote>, n: int) -> int
    decreases n,
{
    if n <= 0 {
        0
    } else {
        sum_abs_final_cents(s, n - 1) + spec_abs(s[n - 1].final_cents as int)
    }
}

/// Session-complete screen: the finished notes and their average absolute
/// deviation.
pub struct CompleteScreen {
    /// The completed notes of the finished session.
    pub completed_notes: Vec<CompletedNote>,
    /// Average absolute final deviation in centicents.
    pub avg_deviation: i64,
}

impl CompleteScreen {
    /// Create a new complete screen, computing the average absolute final
    /// deviation of the given records.
    pub fn new(completed_notes: Vec<CompletedNote>) -> (r: Self)
        requires
            completed_notes@.len() <= 1000000,
            forall|i: int|
                0 <= i < completed_notes@.len() ==> -1000000000 <= (#[trigger] completed_notes@[
                    i
                ]).final_cents <= 1000000000,
        ensures
            r.completed_notes@ == completed_notes@,
            completed_notes@.len() == 0 ==> r.avg_deviation == 0,
            completed_notes@.len() > 0 ==> r.avg_deviation == sum_abs_final_cents(
                completed_notes@,
                completed_notes@.len() as int,
            ) / completed_notes@.len() as int,
    {
        let n = completed_notes.len();
        let mut sum: i64 = 0;
        let mut i: usize = 0;
        while i < n
            invariant
                n == completed_notes@.len() <= 1000000,
                forall|k: int|
                    0 <= k < n ==> -1000000000 <= (#[trigger] completed_notes@[k]).final_cents
                        <= 1000000000,
                i <= n,
                sum == sum_abs_final_cents(completed_notes@, i as int),
                0 <= sum <= i as int * 1000000000,
            decreases n - i,
        {
            proof {
                assert((i + 1) as int * 1000000000 == i as int * 1000000000 + 1000000000)
                    by (nonlinear_arith);
            }
            sum = sum + crate::order::abs_centicents(completed_notes[i].final_cents);
            i = i + 1;
        }
        let avg_deviation: i64 = if n == 0 {
            0
        } else {
            proof {
                vstd::arithmetic::div_mod::lemma_div_pos_is_pos(sum as int, n as int);
            }
            ((sum as u64) / (n as u64)) as i64
        };
        CompleteScreen { completed_notes, avg_deviation }
    }
}

} // verus!
