//! Messages that floors, cars and a control unit can exchange.
use vstd::prelude::*;

verus! {

/// Direction of a hall button press.
#[derive(Debug, Clone, PartialEq, Eq, Structural)]
pub enum Direction {
    Up,
    Down,
    Wait,
}

/// A request that a floor sends to the control unit.
#[derive(Debug, Clone, PartialEq, Eq, Structural)]
pub struct FloorRequest {
    pub floor: usize,
    pub direction: Direction,
}

/// A command for one car.
#[derive(Debug, Clone, PartialEq, Eq, Structural)]
pub enum ElevatorCommandType {
    MoveTo(usize),
    OpenDoors,
    CloseDoors,
    Idle,
    Shutdown,
}

/// A command addressed to the car `elevator_id`.
#[derive(Debug, Clone, PartialEq, Eq, Structural)]
pub struct ElevatorCommand {
    pub elevator_id: usize,
    pub command: ElevatorCommandType,
}

/// Coarse motion state of a car, as reported in status messages.
#[derive(Debug, Clone, PartialEq, Eq, Structural)]
pub enum ElevatorState {
    Up,
    Down,
    Wait,
}

} // verus!
