//! Piano keyboard layout and text rendering.

use std::collections::HashSet;
use onkey::piano::{Cell, Piano};

#[test]
fn test_render_one_octave_off() {
    // C4 = MIDI 60, one octave
    let piano = Piano::new(60, 12);
    let rows = piano.render_to_strings();

    // Key : EWBWBWEWBWBWBWE
    // OFF : ║ ▒ ▒ ║ ▒ ▒ ▒ ║
    assert_eq!(rows[0], "║ ▒ ▒ ║ ▒ ▒ ▒ ║");
    assert_eq!(rows[1], "║ ▒ ▒ ║ ▒ ▒ ▒ ║");
    assert_eq!(rows[2], "║ ║ ║ ║ ║ ║ ║ ║");
    assert_eq!(rows[3], "╚═╩═╩═╩═╩═╩═╩═╝");
}

#[test]
fn test_render_one_octave_all_on() {
    // All keys highlighted
    let highlighted: HashSet<usize> = (0..12).collect();
    let piano = Piano::new(60, 12).highlighted(highlighted);
    let rows = piano.render_to_strings();

    // ON  : ║▓█▓█▓║▓█▓█▓█▓║
    assert_eq!(rows[0], "║▓█▓█▓║▓█▓█▓█▓║");
    assert_eq!(rows[1], "║▓█▓█▓║▓█▓█▓█▓║");
    assert_eq!(rows[2], "║▓║▓║▓║▓║▓║▓║▓║");
    assert_eq!(rows[3], "╚═╩═╩═╩═╩═╩═╩═╝");
}

#[test]
fn test_render_partial_on() {
    // Only C and E highlighted (indices 0 and 4)
    let highlighted: HashSet<usize> = [0, 4].into_iter().collect();
    let piano = Piano::new(60, 12).highlighted(highlighted);
    let rows = piano.render_to_strings();

    // C=on, C#=off, D=off, D#=off, E=on, ...
    assert_eq!(rows[0], "║▓▒ ▒▓║ ▒ ▒ ▒ ║");
    assert_eq!(rows[2], "║▓║ ║▓║ ║ ║ ║ ║");
}

#[test]
fn test_render_continuing() {
    let piano = Piano::new(60, 12).continuing(true);
    let rows = piano.render_to_strings();

    // Last char should be ╩ not ╝
    assert!(rows[3].ends_with('╩'));
}

#[test]
fn piano_test_midi_to_index() {
    let piano = Piano::new(60, 12); // C4 to B4

    assert_eq!(piano.midi_to_index(60), Some(0)); // C4
    assert_eq!(piano.midi_to_index(71), Some(11)); // B4
    assert_eq!(piano.midi_to_index(59), None); // B3 (before range)
    assert_eq!(piano.midi_to_index(72), None); // C5 (after range)
}

#[test]
fn test_is_black() {
    // C=0, C#=1, D=2, D#=3, E=4, F=5, F#=6, G=7, G#=8, A=9, A#=10, B=11
    assert!(!Piano::is_black(0)); // C
    assert!(Piano::is_black(1)); // C#
    assert!(!Piano::is_black(2)); // D
    assert!(Piano::is_black(3)); // D#
    assert!(!Piano::is_black(4)); // E
    assert!(!Piano::is_black(5)); // F
    assert!(Piano::is_black(6)); // F#
    assert!(!Piano::is_black(7)); // G
    assert!(Piano::is_black(8)); // G#
    assert!(!Piano::is_black(9)); // A
    assert!(Piano::is_black(10)); // A#
    assert!(!Piano::is_black(11)); // B
}

#[test]
fn test_has_edge_after() {
    // Edges after E (4) and B (11)
    assert!(!Piano::has_edge_after(0));
    assert!(!Piano::has_edge_after(3));
    assert!(Piano::has_edge_after(4)); // E
    assert!(!Piano::has_edge_after(5));
    assert!(Piano::has_edge_after(11)); // B
}

#[test]
fn test_one_octave_from_c() {
    // C4 = MIDI 60, one octave = 12 keys
    let piano = Piano::new(60, 12);
    let cells = piano.build_cells();

    // Pattern: E W B W B W E W B W B W B W E
    // That's 15 cells for a complete octave
    assert_eq!(cells.len(), 15);

    assert_eq!(cells[0], Cell::Edge); // Leading edge
    assert_eq!(cells[1], Cell::White(0)); // C
    assert_eq!(cells[2], Cell::Black(1)); // C#
    assert_eq!(cells[3], Cell::White(2)); // D
    assert_eq!(cells[4], Cell::Black(3)); // D#
    assert_eq!(cells[5], Cell::White(4)); // E
    assert_eq!(cells[6], Cell::Edge); // E-F edge
    assert_eq!(cells[7], Cell::White(5)); // F
    assert_eq!(cells[8], Cell::Black(6)); // F#
    assert_eq!(cells[9], Cell::White(7)); // G
    assert_eq!(cells[10], Cell::Black(8)); // G#
    assert_eq!(cells[11], Cell::White(9)); // A
    assert_eq!(cells[12], Cell::Black(10)); // A#
    assert_eq!(cells[13], Cell::White(11)); // B
    assert_eq!(cells[14], Cell::Edge); // Trailing edge
}

#[test]
fn test_partial_octave() {
    // Just C D E (3 white keys, 2 black keys)
    let piano = Piano::new(60, 5); // C, C#, D, D#, E
    let cells = piano.build_cells();

    // E W B W B W E = 7 cells
    assert_eq!(cells.len(), 7);
    assert_eq!(cells[0], Cell::Edge);
    assert_eq!(cells[1], Cell::White(0)); // C
    assert_eq!(cells[2], Cell::Black(1)); // C#
    assert_eq!(cells[3], Cell::White(2)); // D
    assert_eq!(cells[4], Cell::Black(3)); // D#
    assert_eq!(cells[5], Cell::White(4)); // E
    assert_eq!(cells[6], Cell::Edge); // Trailing (no internal edge since F not included)
}

#[test]
fn test_starting_on_a() {
    // A0 = MIDI 21, typical piano start
    let piano = Piano::new(21, 3); // A, A#, B
    let cells = piano.build_cells();

    // A=9, A#=10, B=11. B has an edge after, but B is the last key, so no
    // internal edge: E W B W E = 5 cells
    assert_eq!(cells.len(), 5);
    assert_eq!(cells[0], Cell::Edge);
    assert_eq!(cells[1], Cell::White(0)); // A (semitone 9)
    assert_eq!(cells[2], Cell::Black(1)); // A# (semitone 10)
    assert_eq!(cells[3], Cell::White(2)); // B (semitone 11)
    assert_eq!(cells[4], Cell::Edge); // Trailing
}

#[test]
fn test_cross_octave() {
    // B to C crossing: B3, C4 = MIDI 59, 60
    let piano = Piano::new(59, 2);
    let cells = piano.build_cells();

    // B (11) has edge after, C follows
    // E W E W E = 5 cells
    assert_eq!(cells.len(), 5);
    assert_eq!(cells[0], Cell::Edge);
    assert_eq!(cells[1], Cell::White(0)); // B
    assert_eq!(cells[2], Cell::Edge); // B-C gap
    assert_eq!(cells[3], Cell::White(1)); // C
    assert_eq!(cells[4], Cell::Edge);
}

#[test]
fn test_current_key_shows_on() {
    let piano = Piano::new(60, 12).current(Some(0));
    let rows = piano.render_to_strings();
    assert_eq!(rows[0], "║▓▒ ▒ ║ ▒ ▒ ▒ ║");
}

#[test]
fn test_deviations_show_on() {
    let mut deviations = std::collections::HashMap::new();
    deviations.insert(4usize, 1200i64);
    let piano = Piano::new(60, 12).with_deviations(deviations);
    let rows = piano.render_to_strings();
    assert_eq!(rows[0], "║ ▒ ▒▓║ ▒ ▒ ▒ ║");
}
