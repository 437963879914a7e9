//! A library for guiding the manual tuning of an acoustic piano.
//!
//! The library models the pitch-acquisition and tuning-coordination engine:
//! a capture buffer that hands audio frames from a real-time producer to a
//! polling consumer, a difference-function pitch estimator, an equal
//! temperament model, the order in which the 88 keys are visited, and the
//! coaching state machine that walks a session through them.
//!
//! All quantities are fixed-point integers:
//! - audio samples are signed, with full scale at `16384`;
//! - frequencies are in millihertz (440 Hz = `440_000`);
//! - pitch deviations are in hundredths of a cent (1 cent = `100`);
//! - confidence scores and thresholds are in thousandths (1.0 = `1000`).

pub mod buffer;
pub mod clock;
pub mod coordinator;
pub mod notes;
pub mod order;
pub mod piano;
pub mod pitch;
pub mod profile;
pub mod reference;
pub mod screens;
pub mod session;
pub mod steps;
pub mod stretch;
pub mod temperament;

pub use buffer::CaptureBuffer;
pub use coordinator::{AppState, Coordinator};
pub use notes::Note;
pub use order::TuningOrder;
pub use piano::{Cell, Piano};
pub use pitch::{PitchDetector, PitchResult};
pub use profile::{PianoProfile, ProfiledNote};
pub use reference::ReferenceTone;
pub use screens::{App, BoxChars, CalibrationScreen, CompleteScreen, Meter, ModeSelectScreen, ProfilingScreen, Progress, SelectedMode, TuningScreen};
pub use session::{CompletedNote, Session, TuningMode};
pub use steps::{Instructions, TuningStep};
pub use stretch::StretchCurve;
pub use temperament::Temperament;
