//! A small multi-car elevator bank: each car runs a motion and door state
//! machine, and a dispatcher assigns hall calls to the best-suited car.

pub mod elevator;
pub mod elevator_controller;
pub mod person;
mod random;
pub mod simulation;
pub mod passenger;
pub mod message_types;
pub mod floor;
