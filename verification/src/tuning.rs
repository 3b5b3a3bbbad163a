//! The tuning table: one precomputed entry per representable note value
//! (including pitch-shifted note values), holding the phase increment in
//! cycles per sample and the width of the band-limiting transition.
//!
//! The frequencies themselves come from the equal-temperament formula,
//! which the caller evaluates; this module holds the table, checks its
//! invariants once, and hands entries out immutably.

use vstd::prelude::*;
use crate::fixed::Q_ONE;

verus! {

/// Number of playable notes (and voices).
pub const KEYS_NR: usize = 128;

/// Number of tuning entries: one per playable note plus the pitch-offset
/// headroom above the top note.
pub const NOTES_NR: usize = 176;

/// Largest representable phase increment, in Q30 cycles per sample.
pub const INCREMENT_MAX: i64 = 0x10_0000_0000;

/// One note's precomputed data: the phase increment of its fundamental and
/// the fraction of a cycle spanned by the band-limiting transition.
#[derive(Clone, Copy, PartialEq, Eq, Structural, Debug)]
pub struct NoteData {
    pub increment: i64,
    pub transition: i64,
}

impl NoteData {
    /// A positive increment within range; a usable transition width.
    pub open spec fn wf(self) -> bool {
        &&& 0 < self.increment <= INCREMENT_MAX
        &&& 0 < self.transition <= Q_ONE
    }
}

/// What a usable table's entries look like: full length, every entry
/// usable, increments strictly increasing with the note number.
pub open spec fn entries_wf(entries: Seq<NoteData>) -> bool {
    &&& entries.len() == NOTES_NR
    &&& forall|i: int| 0 <= i < NOTES_NR ==> (#[trigger] entries[i]).wf()
    &&& forall|i: int| 0 < i < NOTES_NR ==> (#[trigger] entries[i]).increment > entries[i
        - 1].increment
}

/// The immutable per-note table.
pub struct TuningTable {
    entries: Vec<NoteData>,
}

impl TuningTable {
    /// The entries, for specification purposes.
    pub closed spec fn view(self) -> Seq<NoteData> {
        self.entries@
    }

    /// One entry per representable note, each well formed, with the phase
    /// increment strictly increasing with the note number.
    pub open spec fn wf(self) -> bool {
        entries_wf(self@)
    }

    /// Builds the table from precomputed entries, accepting it only when
    /// the invariants hold: full length, every entry usable, increments
    /// strictly increasing with the note number.
    pub fn new(entries: Vec<NoteData>) -> (r: Option<TuningTable>)
        ensures
            r is Some ==> (r->0).wf() && (r->0)@ == entries@,
            r is None ==> !entries_wf(entries@),
    {
        if entries.len() != NOTES_NR {
            return None;
        }
        let mut i: usize = 0;
        while i < NOTES_NR
            invariant
                entries@.len() == NOTES_NR,
                0 <= i <= NOTES_NR,
                forall|k: int| 0 <= k < i ==> (#[trigger] entries@[k]).wf(),
                forall|k: int| 0 < k < i ==> (#[trigger] entries@[k]).increment > entries@[k
                    - 1].increment,
            decreases NOTES_NR - i,
        {
            let e: NoteData = entries[i];
            if !(0 < e.increment && e.increment <= INCREMENT_MAX && 0 < e.transition
                && e.transition <= Q_ONE) {
                return None;
            }
            if i > 0 && entries[i - 1].increment >= e.increment {
                return None;
            }
            i += 1;
        }
        Some(TuningTable { entries })
    }

    /// The entry for a (possibly pitch-shifted) note value.
    pub fn at(&self, note: usize) -> (r: NoteData)
        requires
            self.wf(),
            note < NOTES_NR,
        ensures
            r == self@[note as int],
            r.wf(),
    {
        self.entries[note]
    }
}

} // verus!
