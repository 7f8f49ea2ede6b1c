use vstd::prelude::*;

use crate::model::GameOutcome;
use crate::text::concat2;
use crate::tui::view::{decimal, spec_decimal};

verus! {

/// Games won by the first deck, by the second deck, and tied (a game without an outcome
/// counts as tied).
pub open spec fn count_total(counts: [u32; 3]) -> int {
    counts[0] + counts[1] + counts[2]
}

/// Adds one simulated game's outcome to `counts`: a win of seat 0 or 1 counts for that deck,
/// a tie or no outcome counts as a tie; a winner that names no seat is refused, with counts
/// unchanged.
pub fn tally_outcome(counts: &mut [u32; 3], outcome: Option<GameOutcome>) -> (r: Result<(), String>)
    requires
        count_total(*old(counts)) < u32::MAX,
    ensures
        match outcome {
            Some(GameOutcome::Win(w)) => if w < 2 {
                &&& r is Ok
                &&& final(counts)@ == old(counts)@.update(w as int, (old(counts)[w as int] + 1) as u32)
            } else {
                &&& r matches Err(m) && m@ == "Invalid winner index: "@ + spec_decimal(w as nat)
                &&& *final(counts) == *old(counts)
            },
            _ => {
                &&& r is Ok
                &&& final(counts)@ == old(counts)@.update(2, (old(counts)[2] + 1) as u32)
            },
        },
        r is Ok ==> count_total(*final(counts)) == count_total(*old(counts)) + 1,
{
    match outcome {
        Some(GameOutcome::Win(w)) => {
            if w < 2 {
                counts.set(w, counts[w] + 1);
                Ok(())
            } else {
                Err(concat2("Invalid winner index: ", decimal(w).as_str()))
            }
        },
        _ => {
            counts.set(2, counts[2] + 1);
            Ok(())
        },
    }
}

} // verus!
