//! Tuning session state: the resumption cursor and the record of finished
//! notes. Persistence itself is a collaborator's concern; a session is plain
//! data that the coordinator mutates and hands out at save points.

use vstd::prelude::*;
use crate::clock;

verus! {

/// Tuning mode.
#[derive(Debug, Clone, Copy, PartialEq, Eq, Structural)]
pub enum TuningMode {
    /// Quick tune relative to the piano's current pitch center.
    Quick,
    /// Concert pitch tuning (A4 = 440 Hz or custom).
    Concert,
    /// Profile every key first, then tune worst-first.
    Profile,
}

/// A completed note in a tuning session.
#[derive(Clone)]
pub struct CompletedNote {
    /// Note display name (e.g., "F3").
    pub note: String,
    /// Final deviation from target in centicents; zero marks a skipped,
    /// unmeasured note as well as a perfect one.
    pub final_cents: i64,
    /// When the note was finished, in milliseconds since the epoch.
    pub timestamp: i64,
}

/// A tuning session.
#[derive(Clone)]
pub struct Session {
    /// Unique session ID (an RFC 3339 timestamp).
    pub id: String,
    /// Tuning mode.
    pub mode: TuningMode,
    /// A4 reference frequency in millihertz.
    pub a4_reference: u64,
    /// The piano's offset from concert pitch in centicents (for quick tune).
    pub piano_offset_cents: i64,
    /// Current note index in the tuning order: the sole resumption cursor.
    pub current_note_index: usize,
    /// Completed notes, append-only.
    pub completed_notes: Vec<CompletedNote>,
    /// Session creation time, in milliseconds since the epoch.
    pub created_at: i64,
    /// Last update time, in milliseconds since the epoch.
    pub updated_at: i64,
}

impl Session {
    /// The reference pitch and every recorded deviation are in range, and
    /// the cursor never runs past the end of an 88-note order.
    pub open spec fn wf(&self) -> bool {
        &&& 100000 <= self.a4_reference <= 1000000
        &&& -1000000000 <= self.piano_offset_cents <= 1000000000
        &&& self.current_note_index <= 88
        &&& self.completed_notes@.len() <= 1000000
        &&& forall|i: int|
            0 <= i < self.completed_notes@.len() ==> -1000000000
                <= (#[trigger] self.completed_notes@[i]).final_cents <= 1000000000
    }

    /// Create a new session at the given reference pitch in millihertz.
    pub fn new(mode: TuningMode, a4_reference: u64) -> (s: Self)
        requires
            100000 <= a4_reference <= 1000000,
        ensures
            s.wf(),
            s.mode == mode,
            s.a4_reference == a4_reference,
            s.piano_offset_cents == 0,
            s.current_note_index == 0,
            s.completed_notes@.len() == 0,
            s.created_at == s.updated_at,
    {
        let (now, id) = clock::now_instant();
        Session {
            id,
            mode,
            a4_reference,
            piano_offset_cents: 0,
            current_note_index: 0,
            completed_notes: Vec::new(),
            created_at: now,
            updated_at: now,
        }
    }

    /// Check if the session is complete: the cursor has passed the last of
    /// the 88 notes.
    pub fn is_complete(&self) -> (r: bool)
        ensures
            r == (self.current_note_index >= 88),
    {
        self.current_note_index >= 88
    }

    /// Append a completion record and advance the cursor by one. A skipped
    /// note is recorded with zero centicents as the not-measured sentinel.
    pub fn record_completion(&mut self, note: String, final_cents: i64)
        requires
            old(self).wf(),
            old(self).current_note_index < 88,
            old(self).completed_notes@.len() < 1000000,
            -1000000000 <= final_cents <= 1000000000,
        ensures
            final(self).wf(),
            final(self).id == old(self).id,
            final(self).mode == old(self).mode,
            final(self).a4_reference == old(self).a4_reference,
            final(self).piano_offset_cents == old(self).piano_offset_cents,
            final(self).created_at == old(self).created_at,
            final(self).current_note_index == old(self).current_note_index + 1,
            final(self).completed_notes@.len() == old(self).completed_notes@.len() + 1,
            forall|i: int|
                0 <= i < old(self).completed_notes@.len()
                    ==> #[trigger] final(self).completed_notes@[i]
                    == old(self).completed_notes@[i],
            ({
                let last = final(self).completed_notes@.last();
                last.note@ == note@ && last.final_cents == final_cents
            }),
    {
        let now = clock::now_millis();
        self.completed_notes.push(CompletedNote { note, final_cents, timestamp: now });
        self.current_note_index = self.current_note_index + 1;
        self.updated_at = now;
    }

    /// Move the cursor back one position, stopping at the front. The
    /// completion record is kept: stepping back over a finished note revisits
    /// it without forgetting that it was once done.
    pub fn step_back(&mut self)
        requires
            old(self).wf(),
        ensures
            final(self).wf(),
            final(self).completed_notes@ == old(self).completed_notes@,
            final(self).id == old(self).id,
            final(self).mode == old(self).mode,
            final(self).a4_reference == old(self).a4_reference,
            final(self).piano_offset_cents == old(self).piano_offset_cents,
            final(self).created_at == old(self).created_at,
            old(self).current_note_index == 0 ==> final(self).current_note_index == 0,
            old(self).current_note_index > 0 ==> final(self).current_note_index == old(
                self,
            ).current_note_index - 1,
    {
        if self.current_note_index > 0 {
            self.current_note_index = self.current_note_index - 1;
            self.updated_at = clock::now_millis();
        }
    }
}

} // verus!
