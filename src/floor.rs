//! A floor of the building: its waiting passengers, its hall buttons, and
//! the channel on which it reports requests.
use vstd::prelude::*;
use std::sync::mpsc::Sender;
use crate::message_types::FloorRequest;
use crate::passenger::Passenger;

verus! {

/// std's channel sender, carried as an opaque value.
#[verifier::external_type_specification]
#[verifier::external_body]
#[verifier::reject_recursive_types(T)]
pub struct ExSender<T>(Sender<T>);

/// A floor with its waiting passengers and hall-button press counts.
pub struct Floor {
    pub floor_number: i32,
    pub waiting_passengers: Vec<Passenger>,
    pub up_button: i32,
    pub down_button: i32,
    pub floor_request_sender: Sender<FloorRequest>,
}

impl Floor {
    /// A floor with the given passengers and no button presses yet.
    pub fn new(
        floor_number: i32,
        waiting_passengers: Vec<Passenger>,
        floor_request_sender: Sender<FloorRequest>,
    ) -> (r: Floor)
        ensures
            r.floor_number == floor_number,
            r.waiting_passengers@ == waiting_passengers@,
            r.up_button == 0,
            r.down_button == 0,
            r.floor_request_sender == floor_request_sender,
    {
        Floor { floor_number, waiting_passengers, up_button: 0, down_button: 0, floor_request_sender }
    }
}

} // verus!
