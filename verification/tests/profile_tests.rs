//! Profile measurements: recording, statistics and deviation ordering.

use onkey::profile::PianoProfile;

#[test]
fn test_new_profile() {
    let profile = PianoProfile::new();
    assert!(!profile.is_complete());
    assert_eq!(profile.progress(), (0, 88));
    assert_eq!(profile.average_deviation(), 0);
}

#[test]
fn test_record_note() {
    let mut profile = PianoProfile::new();
    // A4, slightly sharp: 442 Hz, +7.85 cents.
    profile.record_note(69, 442000, 785);

    assert_eq!(profile.progress(), (1, 88));
    assert!(!profile.is_complete());

    let note = profile.notes[48].as_ref().expect("A4 should be recorded");
    assert_eq!(note.midi, 69);
    assert_eq!(note.cents, 785);
}

#[test]
fn test_average_deviation() {
    let mut profile = PianoProfile::new();
    profile.record_note(69, 442000, 1000);
    profile.record_note(70, 467000, -2000);
    profile.record_note(71, 494000, 3000);

    // Average of |10|, |-20|, |30| cents = 60/3 = 20 cents.
    assert_eq!(profile.average_deviation(), 2000);
}

#[test]
fn test_worst_notes() {
    let mut profile = PianoProfile::new();
    profile.record_note(69, 440000, 500);
    profile.record_note(70, 466000, -2500);
    profile.record_note(71, 494000, 1500);

    let worst = profile.worst_notes(2);
    assert_eq!(worst.len(), 2);
    assert_eq!(worst[0].midi, 70); // -25 cents (highest abs)
    assert_eq!(worst[1].midi, 71); // 15 cents
}

#[test]
fn test_notes_by_deviation() {
    let mut profile = PianoProfile::new();
    profile.record_note(21, 27500, 200); // A0
    profile.record_note(69, 440000, -5000); // A4
    profile.record_note(108, 4186000, 1000); // C8

    let sorted = profile.notes_by_deviation();
    assert_eq!(sorted.len(), 3);
    assert_eq!(sorted[0].1.midi, 69); // -50 cents
    assert_eq!(sorted[1].1.midi, 108); // 10 cents
    assert_eq!(sorted[2].1.midi, 21); // 2 cents
}

#[test]
fn profile_test_midi_to_index() {
    assert_eq!(PianoProfile::midi_to_index(21), Some(0)); // A0
    assert_eq!(PianoProfile::midi_to_index(69), Some(48)); // A4
    assert_eq!(PianoProfile::midi_to_index(108), Some(87)); // C8
    assert_eq!(PianoProfile::midi_to_index(20), None); // Out of range
    assert_eq!(PianoProfile::midi_to_index(109), None); // Out of range
}

#[test]
fn test_sort_by_recency_orders_newest_first() {
    let mut a = PianoProfile::new();
    a.created_at = 100;
    let mut b = PianoProfile::new();
    b.created_at = 300;
    let mut c = PianoProfile::new();
    c.created_at = 200;
    let sorted = onkey::profile::sort_by_recency(vec![a, b, c]);
    assert_eq!(sorted.len(), 3);
    assert_eq!(sorted[0].created_at, 300);
    assert_eq!(sorted[1].created_at, 200);
    assert_eq!(sorted[2].created_at, 100);
}

#[test]
fn test_deviations_table_reads_zero_for_unmeasured() {
    let mut profile = PianoProfile::new();
    profile.record_note(21, 27500, -750);
    let devs = profile.deviations();
    assert_eq!(devs.len(), 88);
    assert_eq!(devs[0], -750);
    assert_eq!(devs[1], 0);
    assert_eq!(devs[87], 0);
}
