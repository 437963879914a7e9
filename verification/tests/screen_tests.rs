//! Screen state: sessions, steps, instructions and summaries.

use onkey::coordinator::AppState;
use onkey::screens::{
    App, CalibrationScreen, CompleteScreen, ModeSelectScreen, ProfilingScreen, SelectedMode,
    TuneBand, TuningScreen, band_for_cents,
};
use onkey::session::{CompletedNote, Session, TuningMode};
use onkey::steps::{Instructions, TuningStep};

#[test]
fn test_app_state_machine() {
    let mut app = App::new();
    assert_eq!(app.state(), AppState::ModeSelect);
    assert!(!app.should_quit());
    app.set_state(AppState::Tuning);
    assert_eq!(app.state(), AppState::Tuning);
    assert!(app.session().is_none());
    app.set_session(Session::new(TuningMode::Concert, 440000));
    assert!(app.session().is_some());
    app.quit();
    assert!(app.should_quit());
}

#[test]
fn test_mode_select_cycles() {
    let mut screen = ModeSelectScreen::new();
    assert_eq!(screen.selected(), SelectedMode::QuickTune);
    screen.next();
    assert_eq!(screen.selected(), SelectedMode::ConcertPitch);
    screen.next();
    assert_eq!(screen.selected(), SelectedMode::ProfileFirst);
    screen.next();
    assert_eq!(screen.selected(), SelectedMode::QuickTune);
}

#[test]
fn test_session_lifecycle() {
    let mut session = Session::new(TuningMode::Concert, 440000);
    assert!(!session.is_complete());
    assert_eq!(session.current_note_index, 0);
    // A new session's creation and update stamps are one clock reading.
    assert_eq!(session.created_at, session.updated_at);
    session.record_completion(String::from("F3"), 400);
    assert_eq!(session.current_note_index, 1);
    assert_eq!(session.completed_notes[0].note, "F3");
    assert_eq!(session.completed_notes[0].final_cents, 400);
    session.step_back();
    assert_eq!(session.current_note_index, 0);
    session.step_back();
    assert_eq!(session.current_note_index, 0);
}

#[test]
fn test_tuning_steps_for_string_counts() {
    assert_eq!(TuningStep::first_for_strings(1), None);
    assert_eq!(TuningStep::first_for_strings(2), Some(TuningStep::MuteBichord));
    assert_eq!(TuningStep::first_for_strings(3), Some(TuningStep::MuteOuter));
    assert_eq!(TuningStep::MuteOuter.total_steps(), 4);
    assert_eq!(TuningStep::MuteBichord.total_steps(), 2);
    assert_eq!(TuningStep::TuneLeft.number(), 3);
    assert!(TuningStep::MuteOuter.is_muting());
    assert!(!TuningStep::TuneCenter.is_muting());
    assert_eq!(TuningStep::MuteOuter.next(), Some(TuningStep::TuneCenter));
    assert_eq!(TuningStep::TuneRight.next(), None);
    assert_eq!(TuningStep::TuneRight.prev(), Some(TuningStep::TuneLeft));
    assert_eq!(TuningStep::MuteBichord.prev(), None);
    assert_eq!(TuningStep::MuteOuter.title(), "Mute outer strings");
    assert!(TuningStep::TuneCenter.instruction().contains("center string"));
}

#[test]
fn test_tuning_screen_substeps() {
    let mut screen = TuningScreen::new(String::from("F3"), 0, 88, 174614, 3, 53);
    assert_eq!(screen.tuning_step(), Some(TuningStep::MuteOuter));
    assert!(screen.is_trichord());
    assert!(!screen.is_bichord());
    assert!(screen.is_multi_string());
    assert!(screen.next_step());
    assert!(screen.next_step());
    assert!(screen.next_step());
    assert_eq!(screen.tuning_step(), Some(TuningStep::TuneRight));
    assert!(!screen.next_step());
    assert!(screen.prev_step());
    assert_eq!(screen.tuning_step(), Some(TuningStep::TuneLeft));
}

#[test]
fn test_tuning_screen_completion() {
    let mut screen = TuningScreen::new(String::from("F3"), 0, 88, 174614, 3, 53);
    screen.update(174650, 36);
    // Not at the last sub-step yet.
    assert!(!screen.is_complete());
    screen.next_step();
    screen.next_step();
    screen.next_step();
    assert!(screen.is_complete());
    // Too far off target.
    screen.update(176000, 1370);
    assert!(!screen.is_complete());
    // No detection at all.
    screen.clear();
    assert!(!screen.is_complete());
    assert_eq!(screen.cents(), 0);
}

#[test]
fn test_profiling_screen_flow() {
    let mut screen = ProfilingScreen::new();
    assert_eq!(screen.current_note_idx(), 0);
    assert_eq!(screen.current_note().midi, 21);
    screen.update(27600, 620);
    assert!(!screen.confirm_note());
    let recorded = screen.profile().notes[0].expect("A0 was recorded");
    assert_eq!(recorded.midi, 21);
    assert_eq!(recorded.frequency, 27600);
    assert_eq!(recorded.cents, 620);
    // Skipping leaves the slot empty.
    assert!(!screen.skip_note());
    assert!(screen.profile().notes[1].is_none());
    screen.go_back();
    assert_eq!(screen.current_note_idx(), 1);
    assert_eq!(screen.progress(), (1, 88));
    let profile = screen.take_profile();
    assert_eq!(profile.progress().0, 1);
}

#[test]
fn test_calibration_screen_counts_samples() {
    let mut screen = CalibrationScreen::new();
    assert!(!screen.is_complete());
    assert_eq!(screen.result(), None);
    for _ in 0..10 {
        screen.update(441000);
    }
    assert!(screen.is_complete());
    assert_eq!(screen.result(), Some(441000));
}

#[test]
fn test_complete_screen_average() {
    let notes = vec![
        CompletedNote { note: String::from("F3"), final_cents: 1000, timestamp: 0 },
        CompletedNote { note: String::from("F#3"), final_cents: -2000, timestamp: 0 },
        CompletedNote { note: String::from("G3"), final_cents: 3000, timestamp: 0 },
    ];
    let screen = CompleteScreen::new(notes);
    assert_eq!(screen.avg_deviation, 2000);
    let empty = CompleteScreen::new(Vec::new());
    assert_eq!(empty.avg_deviation, 0);
}

#[test]
fn test_instructions_direction_hint() {
    let flat = Instructions::simple().with_direction_hint(-800);
    assert_eq!(
        flat.direction_hint.as_deref(),
        Some("Turn tuning pin CLOCKWISE (tighten) slightly")
    );
    let sharp = Instructions::for_step(TuningStep::TuneCenter, 3).with_direction_hint(800);
    assert_eq!(
        sharp.direction_hint.as_deref(),
        Some("Turn tuning pin COUNTER-CLOCKWISE (loosen) slightly")
    );
    let close = Instructions::simple().with_direction_hint(300);
    assert_eq!(close.direction_hint, None);
}

#[test]
fn test_band_for_cents() {
    assert_eq!(band_for_cents(0), TuneBand::InTune);
    assert_eq!(band_for_cents(-500), TuneBand::InTune);
    assert_eq!(band_for_cents(700), TuneBand::Warning);
    assert_eq!(band_for_cents(-1500), TuneBand::Warning);
    assert_eq!(band_for_cents(1501), TuneBand::OutOfTune);
}

#[test]
fn test_meter_tolerance() {
    let meter = onkey::screens::Meter::new(120);
    assert_eq!(meter.cents, 120);
    assert_eq!(meter.tolerance, 500);
    let tight = meter.tolerance(200);
    assert_eq!(tight.tolerance, 200);
    assert_eq!(tight.cents, 120);
}
