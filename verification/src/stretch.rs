//! Stretch tuning (Railsback-style) offsets for inharmonicity compensation.
//!
//! The curve here is flat: every key gets a zero offset, so deviations are
//! measured against pure equal temperament. A per-note offset table is an
//! optional refinement that would slot in at [`StretchCurve::offset_cents`].

use vstd::prelude::*;

verus! {

/// Stretch tuning curve.
pub struct StretchCurve {
    /// A flat curve carries no table.
    pub flat: bool,
}

impl StretchCurve {
    /// Create a new, flat stretch curve.
    pub fn new() -> (r: Self)
        ensures
            r.flat,
    {
        StretchCurve { flat: true }
    }

    /// The stretch offset in centicents for a MIDI note: zero everywhere on
    /// the flat curve.
    pub fn offset_cents(&self, _midi_note: u8) -> (r: i64)
        ensures
            r == 0,
    {
        0
    }
}

impl Default for StretchCurve {
    /// The default curve is flat.
    fn default() -> (r: Self)
        ensures
            r.flat,
    {
        StretchCurve::new()
    }
}

} // verus!
