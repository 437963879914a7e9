//! The 88 keys of the piano, A0 (MIDI 21) through C8 (MIDI 108).

use vstd::prelude::*;

verus! {

/// Number of keys on the piano.
pub const NOTE_COUNT: usize = 88;

/// Lowest MIDI note on the piano: A0.
pub const FIRST_MIDI: u8 = 21;

/// Highest MIDI note on the piano: C8.
pub const LAST_MIDI: u8 = 108;

/// A piano note with its properties.
pub struct Note {
    /// MIDI note number (21 = A0, 108 = C8).
    pub midi: u8,
    /// Note name (e.g., "A", "C#").
    pub name: &'static str,
    /// Octave number.
    pub octave: i8,
    /// Number of strings for this note (1, 2, or 3).
    pub strings: u8,
}

/// The name of the pitch class `t = midi % 12`, as a character sequence.
pub open spec fn spec_pitch_class_name(t: int) -> Seq<char> {
    if t == 0 {
        seq!['C']
    } else if t == 1 {
        seq!['C', '#']
    } else if t == 2 {
        seq!['D']
    } else if t == 3 {
        seq!['D', '#']
    } else if t == 4 {
        seq!['E']
    } else if t == 5 {
        seq!['F']
    } else if t == 6 {
        seq!['F', '#']
    } else if t == 7 {
        seq!['G']
    } else if t == 8 {
        seq!['G', '#']
    } else if t == 9 {
        seq!['A']
    } else if t == 10 {
        seq!['A', '#']
    } else {
        seq!['B']
    }
}

/// The octave number of a MIDI note, under the convention C4 = 60.
pub open spec fn spec_octave(midi: int) -> int {
    midi / 12 - 1
}

/// The number of strings for a key: one in the bass, two across the tenor
/// transition, three in the treble. The break points are the fixed layout
/// of a typical instrument, not computed from physics.
pub open spec fn spec_strings(midi: int) -> int {
    if midi <= 31 {
        1
    } else if midi <= 43 {
        2
    } else {
        3
    }
}

/// The digit character of an octave number `0..=8`.
pub open spec fn spec_octave_digit(o: int) -> char {
    if o == 0 {
        '0'
    } else if o == 1 {
        '1'
    } else if o == 2 {
        '2'
    } else if o == 3 {
        '3'
    } else if o == 4 {
        '4'
    } else if o == 5 {
        '5'
    } else if o == 6 {
        '6'
    } else if o == 7 {
        '7'
    } else {
        '8'
    }
}

/// The display name of a MIDI note: pitch class followed by octave digit,
/// such as `F3` or `C#5`.
pub open spec fn spec_display_name(midi: int) -> Seq<char> {
    spec_pitch_class_name(midi % 12) + seq![spec_octave_digit(spec_octave(midi))]
}

/// A `Note` value carries exactly the data of the key `midi`.
pub open spec fn is_note_for(n: Note, midi: int) -> bool {
    &&& n.midi == midi
    &&& n.name@ == spec_pitch_class_name(midi % 12)
    &&& n.octave == spec_octave(midi)
    &&& n.strings == spec_strings(midi)
}

/// The name of the pitch class of a MIDI note.
fn pitch_class_name(t: u8) -> (r: &'static str)
    requires
        t < 12,
    ensures
        r@ == spec_pitch_class_name(t as int),
{
    proof {
        reveal_strlit("C");
        reveal_strlit("C#");
        reveal_strlit("D");
        reveal_strlit("D#");
        reveal_strlit("E");
        reveal_strlit("F");
        reveal_strlit("F#");
        reveal_strlit("G");
        reveal_strlit("G#");
        reveal_strlit("A");
        reveal_strlit("A#");
        reveal_strlit("B");
    }
    let r = match t {
        0 => "C",
        1 => "C#",
        2 => "D",
        3 => "D#",
        4 => "E",
        5 => "F",
        6 => "F#",
        7 => "G",
        8 => "G#",
        9 => "A",
        10 => "A#",
        _ => "B",
    };
    proof {
        assert(r@ =~= spec_pitch_class_name(t as int));
    }
    r
}

/// The digit string of an octave number.
fn octave_digit_str(o: i8) -> (r: &'static str)
    requires
        0 <= o <= 8,
    ensures
        r@ == seq![spec_octave_digit(o as int)],
{
    proof {
        reveal_strlit("0");
        reveal_strlit("1");
        reveal_strlit("2");
        reveal_strlit("3");
        reveal_strlit("4");
        reveal_strlit("5");
        reveal_strlit("6");
        reveal_strlit("7");
        reveal_strlit("8");
    }
    let r = match o {
        0 => "0",
        1 => "1",
        2 => "2",
        3 => "3",
        4 => "4",
        5 => "5",
        6 => "6",
        7 => "7",
        _ => "8",
    };
    proof {
        assert(r@ =~= seq![spec_octave_digit(o as int)]);
    }
    r
}

impl Note {
    /// Create a new note.
    pub fn new(midi: u8, name: &'static str, octave: i8, strings: u8) -> (n: Self)
        ensures
            n.midi == midi,
            n.name == name,
            n.octave == octave,
            n.strings == strings,
    {
        Note { midi, name, octave, strings }
    }

    /// The note for a chromatic index `0..88` (0 = A0, 87 = C8).
    pub fn for_index(index: usize) -> (n: Self)
        requires
            index < 88,
        ensures
            is_note_for(n, 21 + index),
    {
        Self::for_midi((21 + index) as u8)
    }

    /// The note for a MIDI number in `21..=108`.
    pub fn for_midi(midi: u8) -> (n: Self)
        requires
            21 <= midi <= 108,
        ensures
            is_note_for(n, midi as int),
    {
        let t: u8 = midi % 12;
        let octave: i8 = (midi / 12) as i8 - 1;
        let strings: u8 = if midi <= 31 {
            1
        } else if midi <= 43 {
            2
        } else {
            3
        };
        Note { midi, name: pitch_class_name(t), octave, strings }
    }

    /// Get the display name (e.g., "A4", "C#5").
    pub fn display_name(&self) -> (r: String)
        requires
            21 <= self.midi <= 108,
            is_note_for(*self, self.midi as int),
        ensures
            r@ == spec_display_name(self.midi as int),
    {
        let base = String::from_str(self.name);
        base.concat(octave_digit_str(self.octave))
    }

    /// Check if this is a trichord (3 strings).
    pub fn is_trichord(&self) -> (r: bool)
        ensures
            r == (self.strings == 3),
    {
        self.strings == 3
    }
}

/// The full 88-entry table, chromatic order, index 0 = A0 through 87 = C8.
pub fn notes() -> (table: Vec<Note>)
    ensures
        table@.len() == 88,
        forall|i: int| 0 <= i < 88 ==> is_note_for(#[trigger] table@[i], 21 + i),
{
    let mut table: Vec<Note> = Vec::new();
    let mut midi: u8 = FIRST_MIDI;
    while midi <= LAST_MIDI
        invariant
            21 <= midi <= 109,
            table@.len() == midi - 21,
            forall|i: int| 0 <= i < table@.len() ==> is_note_for(#[trigger] table@[i], 21 + i),
        decreases 109 - midi,
    {
        table.push(Note::for_midi(midi));
        midi = midi + 1;
    }
    table
}

/// The first chromatic index at or after `i` whose display name is `name`,
/// or `-1` if no key from `i` on has that name.
pub open spec fn first_index_of_name(name: Seq<char>, i: int) -> int
    decreases (if 88 - i >= 0 { 88 - i } else { 0 }),
{
    if i >= 88 {
        -1
    } else if spec_display_name(21 + i) == name {
        i
    } else {
        first_index_of_name(name, i + 1)
    }
}

/// Map a display name back to the chromatic index of the note that carries
/// it, or `None` if no key has that name. Used to rebuild progress when a
/// saved session is resumed.
pub fn index_for_display_name(name: &String) -> (r: Option<usize>)
    ensures
        first_index_of_name(name@, 0) >= 0 ==> r == Some(first_index_of_name(name@, 0) as usize),
        first_index_of_name(name@, 0) < 0 ==> r is None,
{
    let mut i: usize = 0;
    while i < 88
        invariant
            0 <= i <= 88,
            first_index_of_name(name@, 0) == first_index_of_name(name@, i as int),
        decreases 88 - i,
    {
        let n = Note::for_index(i);
        let candidate = n.display_name();
        if candidate.eq(name) {
            return Some(i);
        }
        i = i + 1;
    }
    None
}

} // verus!
