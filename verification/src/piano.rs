//! Text model of a piano keyboard.
//!
//! Each octave follows the pattern `EWBWBWEWBWBWBWE`, where `E` is a vertical
//! edge, `W` a white key and `B` a black key; edges fall after E and B, where
//! a real keyboard has no black key. The keyboard is rendered as four rows of
//! characters; coloring the cells is the presentation layer's concern.

use vstd::prelude::*;
use std::collections::{HashMap, HashSet};

verus! {

broadcast use vstd::std_specs::hash::group_hash_axioms;

/// Vertical edge between key groups.
pub const EDGE: char = '║';

/// An untouched white key.
pub const WHITE_OFF: char = ' ';

/// A marked white key.
pub const WHITE_ON: char = '▓';

/// An untouched black key.
pub const BLACK_OFF: char = '▒';

/// A marked black key.
pub const BLACK_ON: char = '█';

/// Bottom border under a white key.
pub const BORDER_WHITE: char = '═';

/// Bottom border under a black key or edge.
pub const BORDER_BLACK: char = '╩';

/// Bottom-left corner.
pub const CORNER_LEFT: char = '╚';

/// Bottom-right corner.
pub const CORNER_RIGHT: char = '╝';

/// A cell in the keyboard layout.
#[derive(Clone, Copy, Debug, PartialEq, Eq, Structural)]
pub enum Cell {
    /// Vertical edge separator (between E-F and B-C, plus both ends).
    Edge,
    /// White key, with its index relative to the keyboard start.
    White(usize),
    /// Black key, with its index relative to the keyboard start.
    Black(usize),
}

/// Whether pitch class `t` (0 = C) is a black key.
pub open spec fn spec_is_black(t: int) -> bool {
    t == 1 || t == 3 || t == 6 || t == 8 || t == 10
}

/// Whether an edge follows pitch class `t` (after E and after B).
pub open spec fn spec_has_edge_after(t: int) -> bool {
    t == 4 || t == 11
}

/// The first `i` keys of the layout, including the leading edge and the
/// internal edges between them.
pub open spec fn cells_prefix(start: int, n: int, i: int) -> Seq<Cell>
    decreases (if i >= 0 { i } else { 0 }),
{
    if i <= 0 {
        seq![Cell::Edge]
    } else {
        let prev = cells_prefix(start, n, i - 1);
        let t = (start + (i - 1)) % 12;
        let keyed = prev.push(
            if spec_is_black(t) {
                Cell::Black((i - 1) as usize)
            } else {
                Cell::White((i - 1) as usize)
            },
        );
        if i < n && spec_has_edge_after(t) {
            keyed.push(Cell::Edge)
        } else {
            keyed
        }
    }
}

/// The whole cell layout for a keyboard of `n` keys from MIDI `start`.
pub open spec fn spec_cells(start: int, n: int) -> Seq<Cell> {
    cells_prefix(start, n, n).push(Cell::Edge)
}

/// Piano keyboard state: which keys are marked, measured or current.
pub struct Piano {
    /// Starting MIDI note (21 = A0).
    pub start_midi: u8,
    /// Number of keys.
    pub num_keys: usize,
    /// Marked (completed) key indices, relative to the start.
    pub highlighted: HashSet<usize>,
    /// Per-key deviations in centicents, for deviation coloring.
    pub deviations: HashMap<usize, i64>,
    /// The currently active key, if any.
    pub current: Option<usize>,
    /// Whether this is a continuing segment (no right corner).
    pub continuing: bool,
}

/// A key shows as "on" when it is marked, measured, or current.
pub open spec fn spec_is_on(p: &Piano, i: int) -> bool {
    ||| p.highlighted@.contains(i as usize)
    ||| p.deviations@.contains_key(i as usize)
    ||| p.current == Some(i as usize)
}

/// The character at a column of one of the four rendered rows.
pub open spec fn spec_row_char(p: &Piano, cells: Seq<Cell>, col: int, row: int) -> char {
    let cell = cells[col];
    if row <= 1 {
        match cell {
            Cell::Edge => '║',
            Cell::Black(i) => if spec_is_on(p, i as int) {
                '█'
            } else {
                '▒'
            },
            Cell::White(i) => if spec_is_on(p, i as int) {
                '▓'
            } else {
                ' '
            },
        }
    } else if row == 2 {
        match cell {
            Cell::Edge => '║',
            Cell::Black(i) => '║',
            Cell::White(i) => if spec_is_on(p, i as int) {
                '▓'
            } else {
                ' '
            },
        }
    } else {
        if col == 0 {
            '╚'
        } else if col == cells.len() - 1 {
            if p.continuing {
                '╩'
            } else {
                '╝'
            }
        } else {
            match cell {
                Cell::Edge => '╩',
                Cell::Black(i) => '╩',
                Cell::White(i) => '═',
            }
        }
    }
}

/// One rendered row of the keyboard.
pub open spec fn spec_row(p: &Piano, cells: Seq<Cell>, row: int) -> Seq<char> {
    Seq::new(cells.len(), |col: int| spec_row_char(p, cells, col, row))
}

impl Piano {
    /// Create a piano of `num_keys` keys starting at `start_midi`.
    pub fn new(start_midi: u8, num_keys: usize) -> (p: Self)
        ensures
            p.start_midi == start_midi,
            p.num_keys == num_keys,
            p.highlighted@ == Set::<usize>::empty(),
            p.deviations@ == Map::<usize, i64>::empty(),
            p.current is None,
            !p.continuing,
    {
        Piano {
            start_midi,
            num_keys,
            highlighted: HashSet::new(),
            deviations: HashMap::new(),
            current: None,
            continuing: false,
        }
    }

    /// Create a full 88-key piano (A0 to C8).
    pub fn full() -> (p: Self)
        ensures
            p.start_midi == 21,
            p.num_keys == 88,
            p.highlighted@ == Set::<usize>::empty(),
            p.deviations@ == Map::<usize, i64>::empty(),
            p.current is None,
            !p.continuing,
    {
        Self::new(21, 88)
    }

    /// Create a single octave starting at the given MIDI note.
    pub fn octave(start_midi: u8) -> (p: Self)
        ensures
            p.start_midi == start_midi,
            p.num_keys == 12,
            p.current is None,
    {
        Self::new(start_midi, 12)
    }

    /// Set the marked (completed) keys.
    pub fn highlighted(self, keys: HashSet<usize>) -> (p: Self)
        ensures
            p == (Piano { highlighted: keys, ..self }),
    {
        Piano { highlighted: keys, ..self }
    }

    /// Set the currently active key.
    pub fn current(self, key: Option<usize>) -> (p: Self)
        ensures
            p == (Piano { current: key, ..self }),
    {
        Piano { current: key, ..self }
    }

    /// Mark as continuing (no right corner in the border row).
    pub fn continuing(self, cont: bool) -> (p: Self)
        ensures
            p == (Piano { continuing: cont, ..self }),
    {
        Piano { continuing: cont, ..self }
    }

    /// Set per-key deviations in centicents for deviation coloring.
    pub fn with_deviations(self, deviations: HashMap<usize, i64>) -> (p: Self)
        ensures
            p == (Piano { deviations, ..self }),
    {
        Piano { deviations, ..self }
    }

    /// Check if a pitch class (0-11, where 0 = C) is a black key.
    pub fn is_black(semitone: u8) -> (r: bool)
        ensures
            r == spec_is_black(semitone as int),
    {
        matches!(semitone, 1 | 3 | 6 | 8 | 10)
    }

    /// Check if a pitch class has an edge after it (E = 4 or B = 11).
    pub fn has_edge_after(semitone: u8) -> (r: bool)
        ensures
            r == spec_has_edge_after(semitone as int),
    {
        semitone == 4 || semitone == 11
    }

    /// Build the cell layout for this keyboard.
    pub fn build_cells(&self) -> (cells: Vec<Cell>)
        requires
            self.num_keys <= 10000,
        ensures
            cells@ == spec_cells(self.start_midi as int, self.num_keys as int),
    {
        let mut cells: Vec<Cell> = Vec::new();
        cells.push(Cell::Edge);
        let mut i: usize = 0;
        while i < self.num_keys
            invariant
                i <= self.num_keys <= 10000,
                cells@ == cells_prefix(self.start_midi as int, self.num_keys as int, i as int),
            decreases self.num_keys - i,
        {
            let semitone: u8 = ((self.start_midi as usize + i) % 12) as u8;
            if Self::is_black(semitone) {
                cells.push(Cell::Black(i));
            } else {
                cells.push(Cell::White(i));
            }
            if i + 1 < self.num_keys && Self::has_edge_after(semitone) {
                cells.push(Cell::Edge);
            }
            i = i + 1;
        }
        cells.push(Cell::Edge);
        cells
    }

    /// The width in characters needed for this keyboard.
    pub fn width(&self) -> (w: usize)
        requires
            self.num_keys <= 10000,
        ensures
            w == spec_cells(self.start_midi as int, self.num_keys as int).len(),
    {
        self.build_cells().len()
    }

    /// Get the starting MIDI note.
    pub fn start_midi(&self) -> (r: u8)
        ensures
            r == self.start_midi,
    {
        self.start_midi
    }

    /// Get the number of keys.
    pub fn num_keys(&self) -> (r: usize)
        ensures
            r == self.num_keys,
    {
        self.num_keys
    }

    /// Convert a MIDI note to a key index relative to the start, or `None`
    /// when the note falls outside this keyboard.
    pub fn midi_to_index(&self, midi: u8) -> (r: Option<usize>)
        ensures
            (self.start_midi <= midi && midi - self.start_midi < self.num_keys) ==> r == Some(
                (midi - self.start_midi) as usize,
            ),
            !(self.start_midi <= midi && midi - self.start_midi < self.num_keys) ==> r is None,
    {
        if midi >= self.start_midi && ((midi - self.start_midi) as usize) < self.num_keys {
            Some((midi - self.start_midi) as usize)
        } else {
            None
        }
    }

    /// Check if a key shows as "on": marked, measured, or current.
    pub fn is_on(&self, index: usize) -> (r: bool)
        ensures
            r == spec_is_on(self, index as int),
    {
        if self.highlighted.contains(&index) {
            return true;
        }
        if self.deviations.contains_key(&index) {
            return true;
        }
        match self.current {
            Some(c) => c == index,
            None => false,
        }
    }

    /// Render a single row of the keyboard to a string.
    fn render_row_to_string(&self, cells: &Vec<Cell>, row: usize) -> (r: String)
        ensures
            r@ == spec_row(self, cells@, row as int),
    {
        let mut out = String::new();
        let mut col: usize = 0;
        while col < cells.len()
            invariant
                col <= cells@.len(),
                out@ == spec_row(self, cells@, row as int).take(col as int),
            decreases cells@.len() - col,
        {
            proof {
                reveal_strlit("║");
                reveal_strlit(" ");
                reveal_strlit("▓");
                reveal_strlit("▒");
                reveal_strlit("█");
                reveal_strlit("═");
                reveal_strlit("╩");
                reveal_strlit("╚");
                reveal_strlit("╝");
            }
            let cell = cells[col];
            let piece: &'static str = if row <= 1 {
                match cell {
                    Cell::Edge => "║",
                    Cell::Black(i) => if self.is_on(i) {
                        "█"
                    } else {
                        "▒"
                    },
                    Cell::White(i) => if self.is_on(i) {
                        "▓"
                    } else {
                        " "
                    },
                }
            } else if row == 2 {
                match cell {
                    Cell::Edge => "║",
                    Cell::Black(_) => "║",
                    Cell::White(i) => if self.is_on(i) {
                        "▓"
                    } else {
                        " "
                    },
                }
            } else {
                if col == 0 {
                    "╚"
                } else if col == cells.len() - 1 {
                    if self.continuing {
                        "╩"
                    } else {
                        "╝"
                    }
                } else {
                    match cell {
                        Cell::Edge => "╩",
                        Cell::Black(_) => "╩",
                        Cell::White(_) => "═",
                    }
                }
            };
            proof {
                assert(piece@ =~= seq![spec_row_char(self, cells@, col as int, row as int)]);
            }
            out.append(piece);
            proof {
                assert(out@ =~= spec_row(self, cells@, row as int).take(col + 1));
            }
            col = col + 1;
        }
        proof {
            assert(spec_row(self, cells@, row as int).take(cells@.len() as int) =~= spec_row(
                self,
                cells@,
                row as int,
            ));
        }
        out
    }

    /// Render the keyboard to four rows of characters.
    pub fn render_to_strings(&self) -> (rows: Vec<String>)
        requires
            self.num_keys <= 10000,
        ensures
            rows@.len() == 4,
            forall|row: int|
                0 <= row < 4 ==> (#[trigger] rows@[row])@ == spec_row(
                    self,
                    spec_cells(self.start_midi as int, self.num_keys as int),
                    row,
                ),
    {
        let cells = self.build_cells();
        let mut rows: Vec<String> = Vec::new();
        let mut row: usize = 0;
        while row < 4
            invariant
                row <= 4,
                rows@.len() == row,
                cells@ == spec_cells(self.start_midi as int, self.num_keys as int),
                forall|k: int|
                    0 <= k < row ==> (#[trigger] rows@[k])@ == spec_row(self, cells@, k),
            decreases 4 - row,
        {
            rows.push(self.render_row_to_string(&cells, row));
            row = row + 1;
        }
        rows
    }
}

} // verus!
