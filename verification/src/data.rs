//! Small data types that several parts of the game share.

use vstd::prelude::*;

verus! {

/// A real-mode address: offset and segment.
#[derive(Clone, Copy, Debug, PartialEq, Eq, Structural)]
pub struct FarPointer {
    pub offset: u16,
    pub segment: u16,
}

impl FarPointer {
    /// The null address.
    pub fn new() -> (r: Self)
        ensures
            r.offset == 0 && r.segment == 0,
    {
        FarPointer { offset: 0, segment: 0 }
    }

    /// The address as the interrupt vector table stores it: offset in the low word,
    /// segment in the high word.
    pub fn from_dword(v: u32) -> (r: Self)
        ensures
            r.offset == v % 65536,
            r.segment == v / 65536,
    {
        FarPointer { offset: (v % 65536) as u16, segment: (v / 65536) as u16 }
    }

    /// The double word that the interrupt vector table stores for this address.
    pub fn to_dword(&self) -> (r: u32)
        ensures
            r == self.segment * 65536 + self.offset,
    {
        (self.segment as u32) * 65536 + (self.offset as u32)
    }
}

/// An address survives the interrupt vector table: its double word read back gives the
/// address, and an address read from a double word stores the same double word.
pub proof fn lemma_far_pointer_roundtrip(p: FarPointer, v: u32)
    ensures
        (p.segment * 65536 + p.offset) % 65536 == p.offset,
        (p.segment * 65536 + p.offset) / 65536 == p.segment,
        (v / 65536) * 65536 + v % 65536 == v,
{
}

/// The thirteen scenery types of the courses, in the game's numbering.
#[derive(Clone, Copy, Debug, PartialEq, Eq, Structural)]
pub enum Scenario {
    Forest,
    Night,
    Fog,
    Snow,
    Desert,
    MotorWay,
    Marsh,
    Storm,
    Roadworks,
    Rally,
    Wind,
    Futuristic,
    Mountains,
}

impl Scenario {
    /// The game's number of the scenario.
    pub open spec fn number(self) -> int {
        match self {
            Scenario::Forest => 0,
            Scenario::Night => 1,
            Scenario::Fog => 2,
            Scenario::Snow => 3,
            Scenario::Desert => 4,
            Scenario::MotorWay => 5,
            Scenario::Marsh => 6,
            Scenario::Storm => 7,
            Scenario::Roadworks => 8,
            Scenario::Rally => 9,
            Scenario::Wind => 10,
            Scenario::Futuristic => 11,
            Scenario::Mountains => 12,
        }
    }

    /// The game's number of the scenario.
    pub fn index(&self) -> (r: usize)
        ensures
            r == self.number(),
            r < 13,
    {
        match self {
            Scenario::Forest => 0,
            Scenario::Night => 1,
            Scenario::Fog => 2,
            Scenario::Snow => 3,
            Scenario::Desert => 4,
            Scenario::MotorWay => 5,
            Scenario::Marsh => 6,
            Scenario::Storm => 7,
            Scenario::Roadworks => 8,
            Scenario::Rally => 9,
            Scenario::Wind => 10,
            Scenario::Futuristic => 11,
            Scenario::Mountains => 12,
        }
    }
}

/// Scenery of a course in the order of the course menu: entry `i` belongs to the
/// course value `2 * i` (from A to B) and `2 * i + 1` (circular).
pub open spec fn menu_scenario(i: int) -> Scenario {
    if i == 0 {
        Scenario::Rally
    } else if i == 1 {
        Scenario::Futuristic
    } else if i == 2 {
        Scenario::Night
    } else if i == 3 {
        Scenario::Marsh
    } else if i == 4 {
        Scenario::Mountains
    } else if i == 5 {
        Scenario::Snow
    } else if i == 6 {
        Scenario::Roadworks
    } else if i == 7 {
        Scenario::Storm
    } else if i == 8 {
        Scenario::Desert
    } else if i == 9 {
        Scenario::Fog
    } else if i == 10 {
        Scenario::MotorWay
    } else if i == 11 {
        Scenario::Wind
    } else {
        Scenario::Forest
    }
}

/// The scenery of menu entry `i` (see [`menu_scenario`]).
pub fn scenario_of_menu_entry(i: usize) -> (r: Scenario)
    requires
        i < 13,
    ensures
        r == menu_scenario(i as int),
{
    match i {
        0 => Scenario::Rally,
        1 => Scenario::Futuristic,
        2 => Scenario::Night,
        3 => Scenario::Marsh,
        4 => Scenario::Mountains,
        5 => Scenario::Snow,
        6 => Scenario::Roadworks,
        7 => Scenario::Storm,
        8 => Scenario::Desert,
        9 => Scenario::Fog,
        10 => Scenario::MotorWay,
        11 => Scenario::Wind,
        _ => Scenario::Forest,
    }
}

/// The sceneries of the menu's entries (two course routes each, from A to B and
/// circular) in the game's table: rally, futuristic, night, marsh, mountains, snow,
/// road works, storm, desert, fog, motorway, wind, forest.
pub proof fn lemma_menu_sceneries()
    ensures
        forall|i: int|
            0 <= i < 13 ==> #[trigger] menu_scenario(i) == seq![
                Scenario::Rally,
                Scenario::Futuristic,
                Scenario::Night,
                Scenario::Marsh,
                Scenario::Mountains,
                Scenario::Snow,
                Scenario::Roadworks,
                Scenario::Storm,
                Scenario::Desert,
                Scenario::Fog,
                Scenario::MotorWay,
                Scenario::Wind,
                Scenario::Forest,
            ][i],
{
}

} // verus!
