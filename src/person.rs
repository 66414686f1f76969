//! A person who wants to ride from one floor to another.
use vstd::prelude::*;
use crate::elevator::Direction;
use crate::elevator_controller::{CAR_COUNT, ControllerModel, ElevatorController};
use crate::random::random_below;

verus! {

/// Floors of the building, numbered from 0.
pub const FLOORS: i32 = 4;

/// A person on a floor or riding a car, and where they want to go.
#[derive(Clone, Copy, PartialEq, Eq, Debug, Structural)]
pub struct Person {
    pub floor: i32,
    pub destination: i32,
    pub in_elevator: bool,
    pub elevator_id: Option<i32>,
}

impl Person {
    /// Direction of the hall call this person makes.
    pub open spec fn call_direction(self) -> Direction {
        if self.destination > self.floor {
            Direction::Up
        } else {
            Direction::Down
        }
    }

    /// The car this person refers to, if any, exists.
    pub open spec fn ride_valid(self) -> bool {
        self.elevator_id is Some ==> 0 <= self.elevator_id.unwrap() < CAR_COUNT
    }

    /// A person waiting at `floor` to reach `destination`.
    pub fn new(floor: i32, destination: i32) -> (r: Person)
        ensures
            r == (Person { floor, destination, in_elevator: false, elevator_id: None }),
    {
        Person { floor, destination, in_elevator: false, elevator_id: None }
    }

    /// A person waiting at a random floor of the building, bound for another
    /// random floor.
    pub fn new_rnd() -> (r: Person)
        ensures
            0 <= r.floor < FLOORS,
            0 <= r.destination < FLOORS,
            r.floor != r.destination,
            !r.in_elevator,
            r.elevator_id is None,
    {
        let floor = random_below(FLOORS);
        // A uniform draw among the other floors: skip over the start floor.
        let mut destination = random_below(FLOORS - 1);
        if destination >= floor {
            destination += 1;
        }
        Person { floor, destination, in_elevator: false, elevator_id: None }
    }

    /// Calls a car toward this person's destination.
    pub fn press_button_up_or_down(&mut self, elevator_controller: &mut ElevatorController)
        requires
            old(elevator_controller).wf(),
        ensures
            final(elevator_controller).wf(),
            final(elevator_controller)@ == old(elevator_controller)@.with_call(
                old(self).floor,
                old(self).call_direction(),
            ),
            *final(self) == *old(self),
    {
        if self.destination > self.floor {
            elevator_controller.request_elevator(self.floor, Direction::Up);
        } else {
            elevator_controller.request_elevator(self.floor, Direction::Down);
        }
    }

    /// Boards car `idx`, whether or not the car accepts the boarding.
    pub fn enter_elevator(&mut self, idx: i32, elevator_controller: &mut ElevatorController)
        requires
            old(elevator_controller).wf(),
            0 <= idx < CAR_COUNT,
        ensures
            final(elevator_controller).wf(),
            final(elevator_controller)@ == (ControllerModel {
                cars: old(elevator_controller)@.cars.update(
                    idx as int,
                    old(elevator_controller)@.cars[idx as int].with_passenger().0,
                ),
                ..old(elevator_controller)@
            }),
            *final(self) == (Person { elevator_id: Some(idx), ..*old(self) }),
    {
        elevator_controller.elevator_add_passenger(idx as usize);
        self.elevator_id = Some(idx);
    }

    /// Leaves car `idx`.
    pub fn leave_elevator(&mut self, idx: i32, elevator_controller: &mut ElevatorController)
        requires
            old(elevator_controller).wf(),
            0 <= idx < CAR_COUNT,
        ensures
            final(elevator_controller).wf(),
            final(elevator_controller)@ == (ControllerModel {
                cars: old(elevator_controller)@.cars.update(
                    idx as int,
                    old(elevator_controller)@.cars[idx as int].without_passenger(),
                ),
                ..old(elevator_controller)@
            }),
            *final(self) == (Person { elevator_id: None, ..*old(self) }),
    {
        elevator_controller.elevator_remove_passenger(idx as usize);
        self.elevator_id = None;
    }

    /// Asks the car this person rides to go to their destination.
    pub fn press_floor_button(&self, elevator_controller: &mut ElevatorController)
        requires
            old(elevator_controller).wf(),
            self.elevator_id is Some,
            0 <= self.elevator_id.unwrap() < CAR_COUNT,
        ensures
            final(elevator_controller).wf(),
            final(elevator_controller)@ == (ControllerModel {
                cars: old(elevator_controller)@.cars.update(
                    self.elevator_id.unwrap() as int,
                    old(elevator_controller)@.cars[self.elevator_id.unwrap() as int].with_request(
                        self.destination,
                    ),
                ),
                ..old(elevator_controller)@
            }),
    {
        let idx = self.elevator_id.unwrap();
        elevator_controller.elevator_add_request(idx as usize, self.destination);
    }
}

} // verus!
