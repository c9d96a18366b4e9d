//! The start of a race: what the chosen course type and race type set up.

use vstd::prelude::*;

use crate::config::{Course, Race};

verus! {

/// Per course type (three fixed courses, circular, unknown): the value the race starts
/// with.
pub const ARR_1F2A: [u16; 5] = [7, 10, 15, 1, 9];

/// What a race starts with.
#[derive(Clone, Copy, Debug)]
pub struct RaceStart {
    /// The course type's value (see [`ARR_1F2A`]).
    pub course_value: u16,
    /// The race type.
    pub race: Race,
    /// The race's counters, all zero at the start.
    pub counters: [u16; 7],
}

/// 537F: the start of a race of type `race` on a course of type `course`.
pub fn sub_537f(course: Course, race: Race) -> (r: RaceStart)
    ensures
        r.course_value == ARR_1F2A@[course.spec_code() as int],
        r.race == race,
        r.counters@ == seq![0u16, 0, 0, 0, 0, 0, 0],
{
    let r = RaceStart { course_value: ARR_1F2A[course.code() as usize], race, counters: [0; 7] };
    assert(r.counters@ =~= seq![0u16, 0, 0, 0, 0, 0, 0]);
    r
}

} // verus!
