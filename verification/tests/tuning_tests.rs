//! Temperament conversions and the tuning order.

use onkey::order::{OrderKind, TuningOrder};
use onkey::profile::PianoProfile;
use onkey::temperament::{OCTAVE_CENTICENTS, RATIO_ONE, Temperament};

#[test]
fn test_a4_is_reference() {
    let t = Temperament::new();
    assert_eq!(t.a4(), 440000);
    assert_eq!(t.frequency(69), 440000);
    let custom = Temperament::with_a4(442000);
    assert_eq!(custom.frequency(69), 442000);
}

#[test]
fn test_octave_doubles() {
    let t = Temperament::new();
    let f69 = t.frequency(69) as i64;
    let f81 = t.frequency(81) as i64;
    assert!((f81 - 2 * f69).abs() <= 1);
}

#[test]
fn test_semitone_is_hundred_cents() {
    let t = Temperament::new();
    let f70 = t.frequency(70);
    let f69 = t.frequency(69);
    let cents = t.cents_from_target(f70, f69);
    // One semitone is 100 cents, within the one-centicent output
    // resolution: the conversion reads exactly 99.99 cents.
    assert_eq!(cents, 9999);
    assert!((cents - 10000).abs() <= 1);
}

#[test]
fn test_cents_of_target_itself_is_zero() {
    let t = Temperament::new();
    assert_eq!(t.cents_from_target(440000, 440000), 0);
    assert_eq!(t.cents_from_target(174614, 174614), 0);
}

#[test]
fn test_cents_sign_matches_direction() {
    let t = Temperament::new();
    assert!(t.cents_from_target(441000, 440000) > 0);
    assert!(t.cents_from_target(439000, 440000) < 0);
    assert!(t.cents_from_target(440001, 440000) >= 0);
    assert!(t.cents_from_target(439999, 440000) < 0);
}

#[test]
fn test_known_piano_range() {
    let t = Temperament::new();
    // A0 is 27.5 Hz exactly; C8 is about 4186 Hz.
    assert_eq!(t.frequency(21), 27500);
    let c8 = t.frequency(108);
    assert!(c8 > 4185000 && c8 < 4187000);
}

#[test]
fn test_cents_to_ratio() {
    assert_eq!(Temperament::cents_to_ratio(0), RATIO_ONE);
    // One octave up doubles the ratio.
    assert_eq!(Temperament::cents_to_ratio(OCTAVE_CENTICENTS), 2 * RATIO_ONE);
    // One octave down halves it.
    assert_eq!(Temperament::cents_to_ratio(-120000), RATIO_ONE / 2);
    // One semitone is close to 2^(1/12) at the ratio scale.
    let semi = Temperament::cents_to_ratio(10000) as i64;
    assert!((semi - 1110928).abs() <= 4);
}

#[test]
fn test_traditional_order() {
    let order = TuningOrder::new();
    assert_eq!(order.len(), 88);
    assert_eq!(order.kind, OrderKind::Traditional);

    // Positions 0..13 are exactly F3..F4 ascending by semitone.
    for p in 0..13 {
        assert_eq!(order.index_at(p), 32 + p);
    }
    // Position 0 is F3.
    let first = order.note_at(0);
    assert_eq!(first.midi, 53);
    assert_eq!(first.display_name(), "F3");
    // Position 55 is C8, position 56 is E3, descending afterwards.
    assert_eq!(order.index_at(55), 87);
    assert_eq!(order.index_at(56), 31);
    for p in 56..88 {
        assert_eq!(order.index_at(p), 87 - p);
    }
    // All 88 chromatic indices appear exactly once.
    let mut seen = [false; 88];
    for p in 0..88 {
        let i = order.index_at(p);
        assert!(!seen[i]);
        seen[i] = true;
    }
    assert!(seen.iter().all(|s| *s));
}

#[test]
fn test_profile_driven_prefix_is_temperament_octave() {
    // The first 13 entries are F3..F4 regardless of profile content.
    let mut profile = PianoProfile::new();
    profile.record_note(33, 55000, 9000);
    profile.record_note(40, 82407, -9900);
    let order = TuningOrder::from_deviations(&profile.deviations());
    assert_eq!(order.len(), 88);
    assert_eq!(order.kind, OrderKind::ProfileDriven);
    for p in 0..13 {
        assert_eq!(order.index_at(p), 32 + p);
    }
}

#[test]
fn test_profile_driven_sorts_by_magnitude() {
    // Deviations of +10, -20 and +30 cents outside the temperament octave
    // appear in magnitude order 30, 20, 10, sign irrelevant.
    let mut profile = PianoProfile::new();
    profile.record_note(22, 29135, 1000); // chromatic index 1: +10 cents
    profile.record_note(24, 32703, -2000); // chromatic index 3: -20 cents
    profile.record_note(26, 36708, 3000); // chromatic index 5: +30 cents
    let order = TuningOrder::from_deviations(&profile.deviations());
    assert_eq!(order.index_at(13), 5);
    assert_eq!(order.index_at(14), 3);
    assert_eq!(order.index_at(15), 1);
    // Everything unmeasured follows in chromatic order.
    assert_eq!(order.index_at(16), 0);
    assert_eq!(order.index_at(17), 2);
}

#[test]
fn test_profile_driven_ties_keep_chromatic_order() {
    let profile = PianoProfile::new();
    let order = TuningOrder::from_deviations(&profile.deviations());
    // All deviations are zero: the tail is the non-temperament indices in
    // ascending chromatic order.
    assert_eq!(order.index_at(13), 0);
    assert_eq!(order.index_at(44), 31);
    assert_eq!(order.index_at(45), 45);
    assert_eq!(order.index_at(87), 87);
}

#[test]
fn test_order_phase_names() {
    let order = TuningOrder::new();
    assert_eq!(order.phase_name(0), "Temperament Octave");
    assert_eq!(order.phase_name(12), "Temperament Octave");
    assert_eq!(order.phase_name(13), "Octaves Up");
    assert_eq!(order.phase_name(55), "Octaves Up");
    assert_eq!(order.phase_name(56), "Octaves Down");
    assert_eq!(order.phase_name(87), "Octaves Down");
    let profile = PianoProfile::new();
    let derived = TuningOrder::from_deviations(&profile.deviations());
    assert_eq!(derived.phase_name(0), "Temperament Octave");
    assert_eq!(derived.phase_name(20), "By Deviation");
}

#[test]
fn test_order_position_lookup() {
    let order = TuningOrder::new();
    assert_eq!(order.position_of(32), Some(0));
    assert_eq!(order.position_of(87), Some(55));
    assert_eq!(order.position_of(0), Some(87));
    assert_eq!(order.position_of(88), None);
}

#[test]
fn test_note_table() {
    let table = onkey::notes::notes();
    assert_eq!(table.len(), 88);
    assert_eq!(table[0].midi, 21);
    assert_eq!(table[0].display_name(), "A0");
    assert_eq!(table[0].strings, 1);
    assert_eq!(table[32].display_name(), "F3");
    assert_eq!(table[32].strings, 3);
    assert_eq!(table[48].display_name(), "A4");
    assert!(table[48].is_trichord());
    assert_eq!(table[87].display_name(), "C8");
    // The bass break points: single strings up to G1, two strings through G2.
    assert_eq!(table[10].strings, 1); // G1, midi 31
    assert_eq!(table[11].strings, 2); // G#1, midi 32
    assert_eq!(table[22].strings, 2); // G2, midi 43
    assert_eq!(table[23].strings, 3); // G#2, midi 44
}

#[test]
fn test_index_for_display_name() {
    assert_eq!(onkey::notes::index_for_display_name(&String::from("A4")), Some(48));
    assert_eq!(onkey::notes::index_for_display_name(&String::from("F3")), Some(32));
    assert_eq!(onkey::notes::index_for_display_name(&String::from("H9")), None);
}

#[test]
fn test_stretch_curve_is_flat() {
    let curve = onkey::stretch::StretchCurve::new();
    assert_eq!(curve.offset_cents(21), 0);
    assert_eq!(curve.offset_cents(108), 0);
}

#[test]
fn test_textwrap() {
    let lines = onkey::steps::textwrap("aa bb cc", 5);
    assert_eq!(lines, vec!["aa bb".to_string(), "cc".to_string()]);
    let lines = onkey::steps::textwrap("Tune the center string to the target pitch.", 16);
    for line in &lines {
        assert!(line.chars().count() <= 16);
    }
    let rejoined = lines.join(" ");
    assert_eq!(rejoined, "Tune the center string to the target pitch.");
}
