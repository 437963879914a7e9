//! The coordinator state machine: confirm, skip, back, pitch feed,
//! calibration and profiling transitions.

use onkey::coordinator::{AppState, Coordinator};
use onkey::pitch::PitchResult;
use onkey::session::TuningMode;
use onkey::steps::TuningStep;

fn estimate(frequency: u64, confidence: u32) -> Option<PitchResult> {
    Some(PitchResult { frequency, confidence })
}

/// Confirm through the current note, sub-steps included.
fn confirm_note(c: &mut Coordinator) {
    let before = c.session.current_note_index;
    while c.state == AppState::Tuning && c.session.current_note_index == before {
        c.confirm();
    }
}

#[test]
fn test_confirming_every_note_completes_once() {
    let mut c = Coordinator::new(TuningMode::Concert, 440000);
    assert_eq!(c.state, AppState::Tuning);
    let mut transitions = 0;
    for _ in 0..88 {
        let before = c.state;
        confirm_note(&mut c);
        if before == AppState::Tuning && c.state == AppState::Complete {
            transitions += 1;
        }
    }
    assert_eq!(c.state, AppState::Complete);
    assert_eq!(transitions, 1);
    assert_eq!(c.session.completed_notes.len(), 88);
    assert_eq!(c.session.current_note_index, 88);
    // Further confirms change nothing.
    c.confirm();
    assert_eq!(c.state, AppState::Complete);
    assert_eq!(c.session.completed_notes.len(), 88);
}

#[test]
fn test_back_at_the_start_is_a_no_op() {
    let mut c = Coordinator::new(TuningMode::Concert, 440000);
    let state = c.state;
    let index = c.session.current_note_index;
    let step = c.sub_step;
    c.back();
    assert_eq!(c.state, state);
    assert_eq!(c.session.current_note_index, index);
    assert_eq!(c.sub_step, step);
}

#[test]
fn test_trichord_needs_four_confirms() {
    // F3 (position 0 of the traditional order) is a trichord.
    let mut c = Coordinator::new(TuningMode::Concert, 440000);
    assert_eq!(c.sub_step, Some(TuningStep::MuteOuter));
    for expected in [TuningStep::TuneCenter, TuningStep::TuneLeft, TuningStep::TuneRight] {
        c.confirm();
        // The first confirms advance the sub-step only: no session mutation.
        assert_eq!(c.session.completed_notes.len(), 0);
        assert_eq!(c.session.current_note_index, 0);
        assert_eq!(c.sub_step, Some(expected));
    }
    c.confirm();
    assert_eq!(c.session.completed_notes.len(), 1);
    assert_eq!(c.session.current_note_index, 1);
}

#[test]
fn test_end_to_end_concert_f3() {
    // New Concert session at A4 = 440: the note at position 0 is F3 with a
    // target near 174.6 Hz; a detected 175.0 Hz reads about +4 cents, and
    // confirming records ("F3", about +4 cents) and advances to position 1.
    let mut c = Coordinator::new(TuningMode::Concert, 440000);
    let target = c.target_frequency();
    assert!(target > 174000 && target < 175000);

    c.feed(estimate(175000, 1000));
    let cents = c.displayed_cents().expect("a confident estimate is displayed");
    assert!(cents > 300 && cents < 500);

    confirm_note(&mut c);
    assert_eq!(c.session.current_note_index, 1);
    let recorded = &c.session.completed_notes[0];
    assert_eq!(recorded.note, "F3");
    assert!(recorded.final_cents > 300 && recorded.final_cents < 500);
}

#[test]
fn test_low_confidence_clears_display() {
    let mut c = Coordinator::new(TuningMode::Concert, 440000);
    c.feed(estimate(175000, 1000));
    assert!(c.displayed_cents().is_some());
    c.feed(estimate(175000, 400));
    assert!(c.displayed_cents().is_none());
    c.feed(estimate(175000, 1000));
    c.feed(None);
    assert!(c.displayed_cents().is_none());
}

#[test]
fn test_skip_records_zero_sentinel_and_bypasses_substeps() {
    let mut c = Coordinator::new(TuningMode::Concert, 440000);
    c.feed(estimate(175000, 1000));
    c.skip();
    assert_eq!(c.session.current_note_index, 1);
    assert_eq!(c.session.completed_notes.len(), 1);
    assert_eq!(c.session.completed_notes[0].final_cents, 0);
    // The next note (F#3, a trichord) opens at its first sub-step.
    assert_eq!(c.sub_step, Some(TuningStep::MuteOuter));
    assert!(c.displayed_cents().is_none());
}

#[test]
fn test_back_reenters_previous_note_at_last_step() {
    let mut c = Coordinator::new(TuningMode::Concert, 440000);
    confirm_note(&mut c);
    assert_eq!(c.session.current_note_index, 1);
    c.back();
    assert_eq!(c.session.current_note_index, 0);
    // F3 is a trichord: its last sub-step.
    assert_eq!(c.sub_step, Some(TuningStep::TuneRight));
}

#[test]
fn test_back_within_a_note_retreats_substep() {
    let mut c = Coordinator::new(TuningMode::Concert, 440000);
    c.confirm();
    assert_eq!(c.sub_step, Some(TuningStep::TuneCenter));
    c.back();
    assert_eq!(c.sub_step, Some(TuningStep::MuteOuter));
    assert_eq!(c.session.current_note_index, 0);
}

#[test]
fn test_calibration_collects_and_derives_reference() {
    let mut c = Coordinator::new(TuningMode::Quick, 440000);
    assert_eq!(c.state, AppState::Calibration);
    // Low-confidence estimates are ignored during calibration.
    c.feed(estimate(442000, 700));
    assert_eq!(c.state, AppState::Calibration);
    for _ in 0..9 {
        c.feed(estimate(442000, 900));
        assert_eq!(c.state, AppState::Calibration);
    }
    c.feed(estimate(442000, 900));
    assert_eq!(c.state, AppState::Tuning);
    assert_eq!(c.session.a4_reference, 442000);
    // 442 Hz reads about +7.85 cents over 440.
    assert!(c.session.piano_offset_cents > 750 && c.session.piano_offset_cents < 820);
}

#[test]
fn test_profiling_records_and_derives_order() {
    let mut c = Coordinator::new(TuningMode::Profile, 440000);
    assert_eq!(c.state, AppState::Profiling);
    let temperament = onkey::temperament::Temperament::new();
    for i in 0..88u8 {
        // Feed each key a half-sharp reading of its own target.
        let f = temperament.frequency(21 + i) + 1000;
        c.feed(estimate(f.min(5000000).max(20000), 1000));
        c.confirm();
    }
    assert_eq!(c.state, AppState::Tuning);
    assert_eq!(c.order.kind, onkey::order::OrderKind::ProfileDriven);
    assert_eq!(c.session.current_note_index, 0);
    // The profile was filled.
    assert!(c.profile.is_complete());
}

#[test]
fn test_profiling_skip_leaves_slot_empty() {
    let mut c = Coordinator::new(TuningMode::Profile, 440000);
    c.feed(estimate(27500, 1000));
    c.skip();
    assert_eq!(c.profiling_index, 1);
    assert!(c.profile.notes[0].is_none());
    c.feed(estimate(29135, 1000));
    c.confirm();
    assert!(c.profile.notes[1].is_some());
}

#[test]
fn test_resume_restores_cursor_and_completed_notes() {
    let mut c = Coordinator::new(TuningMode::Concert, 440000);
    confirm_note(&mut c);
    confirm_note(&mut c);
    let session = c.session.clone();

    let resumed = Coordinator::resume(session);
    assert_eq!(resumed.state, AppState::Tuning);
    assert_eq!(resumed.session.current_note_index, 2);
    // F3 and F#3 were completed: chromatic indices 32 and 33.
    let completed = resumed.completed_indices();
    assert_eq!(completed, vec![32, 33]);
    // The sub-step is reset to the current note's first step.
    assert_eq!(resumed.sub_step, Some(TuningStep::MuteOuter));
}

#[test]
fn test_resume_complete_session() {
    let mut c = Coordinator::new(TuningMode::Concert, 440000);
    for _ in 0..88 {
        c.skip();
    }
    assert_eq!(c.state, AppState::Complete);
    let resumed = Coordinator::resume(c.session.clone());
    assert_eq!(resumed.state, AppState::Complete);
}

#[test]
fn test_resume_skips_unknown_note_names() {
    let mut c = Coordinator::new(TuningMode::Concert, 440000);
    confirm_note(&mut c);
    let mut session = c.session.clone();
    if let Some(first) = session.completed_notes.first_mut() {
        first.note = String::from("??");
    }
    let resumed = Coordinator::resume(session);
    // The unresolvable entry is treated as not yet completed.
    assert_eq!(resumed.completed_indices(), Vec::<usize>::new());
}

#[test]
fn test_progress_counters() {
    let mut c = Coordinator::new(TuningMode::Concert, 440000);
    assert_eq!(c.progress(), (0, 88));
    confirm_note(&mut c);
    assert_eq!(c.progress(), (1, 88));
    let mut p = Coordinator::new(TuningMode::Profile, 440000);
    p.skip();
    assert_eq!(p.progress(), (1, 88));
}
