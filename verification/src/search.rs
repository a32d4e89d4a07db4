//! What the search box says about the occurrences it found.

use vstd::prelude::*;

verus! {

/// The label under the search box.
#[derive(Clone, Copy, Debug, PartialEq, Eq, Structural)]
pub enum OccurrenceLabel {
    /// Which occurrence is selected, and of how many.
    Position { current: i32, total: i32 },
    /// How many occurrences there are.
    Count { results: u32 },
    /// Nothing.
    Blank,
}

/// The label for a number of occurrences and the position of the selected
/// one, which is below 1 where none is selected: with occurrences and a
/// position both, the count with one occurrence or more, else nothing.
pub open spec fn label_for(total: i32, current: i32) -> OccurrenceLabel {
    if total >= 1 && current >= 1 {
        OccurrenceLabel::Position { current, total }
    } else if total >= 1 {
        OccurrenceLabel::Count { results: total as u32 }
    } else {
        OccurrenceLabel::Blank
    }
}

/// The label for a number of occurrences and the position of the selected
/// one.
pub fn occurrence_label(total: i32, current: i32) -> (label: OccurrenceLabel)
    ensures
        label == label_for(total, current),
{
    if total >= 1 && current >= 1 {
        OccurrenceLabel::Position { current, total }
    } else if total >= 1 {
        OccurrenceLabel::Count { results: total as u32 }
    } else {
        OccurrenceLabel::Blank
    }
}

} // verus!
