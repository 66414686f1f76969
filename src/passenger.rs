//! A waiting passenger who has pressed a hall button.
use vstd::prelude::*;

verus! {

/// A passenger: the direction they want (`true` is up) and, once chosen,
/// the floor they travel to.
#[derive(Clone, Copy, PartialEq, Eq, Debug, Structural)]
pub struct Passenger {
    destination: bool,
    destination_floor: Option<u32>,
}

impl Passenger {
    /// Whether the passenger wants to go up.
    pub closed spec fn goes_up(&self) -> bool {
        self.destination
    }

    /// The floor the passenger travels to, once chosen.
    pub closed spec fn target(&self) -> Option<u32> {
        self.destination_floor
    }

    /// A passenger who wants to go up (`true`) or down, with no floor chosen.
    pub fn new(destination: bool) -> (r: Passenger)
        ensures
            r.goes_up() == destination,
            r.target() is None,
    {
        Passenger { destination, destination_floor: None }
    }

    /// Whether the passenger wants to go up.
    pub fn get_destination(&self) -> (r: bool)
        ensures
            r == self.goes_up(),
    {
        self.destination
    }

    /// The floor the passenger travels to, if chosen.
    pub fn get_destination_floor(&self) -> (r: Option<u32>)
        ensures
            r == self.target(),
    {
        self.destination_floor
    }

    /// Chooses the floor the passenger travels to.
    pub fn set_destination_floor(&mut self, floor_id: u32)
        ensures
            final(self).target() == Some(floor_id),
            final(self).goes_up() == old(self).goes_up(),
    {
        self.destination_floor = Some(floor_id);
    }
}

} // verus!
