use elevator_sim::elevator::{
    Direction, Elevator, ElevatorState, State, DWELL_TICKS, ENTRY_COOLDOWN_TICKS, MAX_CAPACITY,
    PROGRESS_STEPS,
};

fn idle_car() -> Elevator {
    Elevator::new(0)
}

fn assert_initial(es: &ElevatorState) {
    assert_eq!(es.floor, 0);
    assert_eq!(es.destination, 0);
    assert!(es.requests.is_empty());
    assert_eq!(es.floor_progress, 0);
    assert_eq!(es.direction, Direction::Up);
    assert_eq!(es.state, State::Waiting);
    assert_eq!(es.door_progress, PROGRESS_STEPS);
    assert_eq!(es.passenger_count, 0);
    assert_eq!(es.wait_timer, 0);
    assert_eq!(es.entry_cooldown, 0);
}

fn assert_bounds(es: &ElevatorState) {
    assert!(es.door_progress <= PROGRESS_STEPS);
    assert!(es.floor_progress < PROGRESS_STEPS);
    assert!(es.passenger_count >= 0);
    if es.state != State::Driving {
        assert_eq!(es.floor_progress, 0);
    }
}

#[test]
fn new_car_is_idle_with_open_doors() {
    let car = Elevator::new(4);
    assert_eq!(car.number, 4);
    assert!(!car.is_paused());
    assert_initial(&car.elevator_state);
}

#[test]
fn request_from_idle_car_starts_closing() {
    let mut car = idle_car();
    car.add_request(3);
    assert_eq!(car.elevator_state.requests, vec![3]);
    assert_eq!(car.elevator_state.destination, 3);
    assert_eq!(car.elevator_state.state, State::Closing);
    assert_eq!(car.elevator_state.wait_timer, DWELL_TICKS);
}

#[test]
fn scenario_drive_three_floors() {
    let mut car = idle_car();
    car.add_request(3);
    // The doors close one unit per tick, then the car starts driving.
    for _ in 0..PROGRESS_STEPS {
        car.tick();
        assert_eq!(car.elevator_state.state, State::Closing);
    }
    assert_eq!(car.elevator_state.door_progress, 0);
    car.tick();
    assert_eq!(car.elevator_state.state, State::Driving);
    // Twenty ticks per floor, three floors.
    for t in 0..60 {
        assert_eq!(car.elevator_state.floor, t / 20);
        car.tick();
        assert_bounds(&car.elevator_state);
    }
    assert_eq!(car.elevator_state.floor, 3);
    assert_eq!(car.elevator_state.floor_progress, 0);
    assert_eq!(car.elevator_state.direction, Direction::Up);
    assert_eq!(car.elevator_state.state, State::Driving);
    car.tick();
    assert_eq!(car.elevator_state.state, State::Opening);
    assert!(car.elevator_state.requests.is_empty());
    assert_eq!(car.elevator_state.destination, 3);
}

#[test]
fn floor_progress_wraps_after_twenty_ticks() {
    let mut car = idle_car();
    car.elevator_state.state = State::Driving;
    car.elevator_state.door_progress = 0;
    car.elevator_state.destination = -2;
    for _ in 0..19 {
        car.tick();
    }
    assert_eq!(car.elevator_state.floor, 0);
    assert_eq!(car.elevator_state.floor_progress, 19);
    assert_eq!(car.elevator_state.direction, Direction::Down);
    car.tick();
    assert_eq!(car.elevator_state.floor, -1);
    assert_eq!(car.elevator_state.floor_progress, 0);
}

#[test]
fn opening_doors_reach_waiting() {
    let mut car = idle_car();
    car.elevator_state.state = State::Opening;
    car.elevator_state.door_progress = 0;
    for i in 1..=PROGRESS_STEPS {
        car.tick();
        assert_eq!(car.elevator_state.door_progress, i);
        assert_eq!(car.elevator_state.state, State::Opening);
    }
    car.tick();
    assert_eq!(car.elevator_state.state, State::Waiting);
    assert_eq!(car.elevator_state.door_progress, PROGRESS_STEPS);
    assert_eq!(car.elevator_state.wait_timer, DWELL_TICKS);
}

#[test]
fn waiting_counts_down_then_closes_for_requests() {
    let mut car = idle_car();
    car.elevator_state.wait_timer = 2;
    car.elevator_state.destination = 1;
    car.tick();
    assert_eq!(car.elevator_state.wait_timer, 1);
    car.tick();
    assert_eq!(car.elevator_state.wait_timer, 0);
    assert_eq!(car.elevator_state.state, State::Waiting);
    car.tick();
    assert_eq!(car.elevator_state.state, State::Closing);
}

#[test]
fn idle_waiting_car_stays_put() {
    let mut car = idle_car();
    for _ in 0..100 {
        car.tick();
    }
    assert_initial(&car.elevator_state);
}

#[test]
fn waiting_car_at_destination_picks_new_request() {
    let mut car = idle_car();
    car.elevator_state.requests = vec![2];
    car.elevator_state.wait_timer = 5;
    car.tick();
    assert_eq!(car.elevator_state.destination, 2);
    assert_eq!(car.elevator_state.wait_timer, 4);
}

#[test]
fn scenario_overloaded_closing_reopens() {
    let mut es = ElevatorState {
        floor: 1,
        destination: 2,
        requests: vec![2],
        floor_progress: 0,
        direction: Direction::Up,
        state: State::Closing,
        door_progress: 10,
        passenger_count: 3,
        wait_timer: 0,
        entry_cooldown: 0,
    };
    es.step();
    assert_eq!(es.state, State::Opening);
    assert_eq!(es.door_progress, 10);
    assert_eq!(es.floor, 1);
}

#[test]
fn overloaded_waiting_car_never_leaves() {
    let mut es = ElevatorState {
        floor: 1,
        destination: 2,
        requests: vec![2],
        floor_progress: 0,
        direction: Direction::Up,
        state: State::Waiting,
        door_progress: PROGRESS_STEPS,
        passenger_count: 3,
        wait_timer: 0,
        entry_cooldown: 0,
    };
    for _ in 0..200 {
        es.step();
        assert_eq!(es.state, State::Waiting);
        assert_eq!(es.floor, 1);
    }
}

#[test]
fn closing_at_exact_capacity_keeps_closing() {
    let mut car = idle_car();
    car.elevator_state.state = State::Closing;
    car.elevator_state.door_progress = 1;
    car.elevator_state.passenger_count = MAX_CAPACITY;
    car.tick();
    assert_eq!(car.elevator_state.state, State::Closing);
    assert_eq!(car.elevator_state.door_progress, 0);
    car.tick();
    assert_eq!(car.elevator_state.state, State::Driving);
}

#[test]
fn nearest_request_first_minimum_wins() {
    let mut car = idle_car();
    car.elevator_state.floor = 3;
    car.elevator_state.destination = 3;
    car.elevator_state.state = State::Driving;
    car.elevator_state.door_progress = 0;
    car.add_request(5);
    car.add_request(1);
    // Both at distance 2: the earlier request wins.
    assert_eq!(car.elevator_state.destination, 5);
    car.add_request(4);
    assert_eq!(car.elevator_state.destination, 4);
    assert_eq!(car.elevator_state.state, State::Driving);
}

#[test]
fn add_request_twice_is_idempotent() {
    let mut once = idle_car();
    once.add_request(2);
    let mut twice = idle_car();
    twice.add_request(2);
    twice.add_request(2);
    assert_eq!(once.elevator_state.requests, twice.elevator_state.requests);
    assert_eq!(twice.elevator_state.requests, vec![2]);
}

#[test]
fn add_request_nudges_each_state() {
    let mut opening = idle_car();
    opening.elevator_state.state = State::Opening;
    opening.elevator_state.wait_timer = 3;
    opening.add_request(1);
    assert_eq!(opening.elevator_state.state, State::Opening);
    assert_eq!(opening.elevator_state.wait_timer, DWELL_TICKS);

    let mut closing = idle_car();
    closing.elevator_state.state = State::Closing;
    closing.elevator_state.wait_timer = 7;
    closing.add_request(1);
    assert_eq!(closing.elevator_state.state, State::Closing);
    assert_eq!(closing.elevator_state.wait_timer, 0);

    let mut here = idle_car();
    here.add_request(0);
    assert_eq!(here.elevator_state.state, State::Waiting);
    assert_eq!(here.elevator_state.wait_timer, 0);
}

#[test]
fn arrival_removes_request_and_heads_to_nearest_rest() {
    let mut car = idle_car();
    car.elevator_state.state = State::Driving;
    car.elevator_state.floor = 2;
    car.elevator_state.destination = 2;
    car.elevator_state.door_progress = 0;
    car.elevator_state.requests = vec![6, 2, 1];
    car.tick();
    assert_eq!(car.elevator_state.requests, vec![6, 1]);
    assert_eq!(car.elevator_state.destination, 1);
    assert_eq!(car.elevator_state.state, State::Opening);
}

#[test]
fn capacity_refuses_third_passenger() {
    let mut car = idle_car();
    assert!(car.add_passenger());
    for _ in 0..ENTRY_COOLDOWN_TICKS {
        car.tick();
    }
    assert!(car.add_passenger());
    for _ in 0..ENTRY_COOLDOWN_TICKS {
        car.tick();
    }
    assert_eq!(car.elevator_state.passenger_count, MAX_CAPACITY);
    let before = (
        car.elevator_state.passenger_count,
        car.elevator_state.entry_cooldown,
        car.elevator_state.wait_timer,
        car.elevator_state.state,
    );
    assert!(!car.add_passenger());
    let after = (
        car.elevator_state.passenger_count,
        car.elevator_state.entry_cooldown,
        car.elevator_state.wait_timer,
        car.elevator_state.state,
    );
    assert_eq!(before, after);
}

#[test]
fn cooldown_refuses_second_passenger() {
    let mut car = idle_car();
    assert!(car.add_passenger());
    assert_eq!(car.elevator_state.entry_cooldown, ENTRY_COOLDOWN_TICKS);
    assert!(!car.add_passenger());
    assert_eq!(car.elevator_state.passenger_count, 1);
}

#[test]
fn boarding_extends_dwell_and_reopens_closing_doors() {
    let mut car = idle_car();
    car.elevator_state.wait_timer = 3;
    assert!(car.add_passenger());
    assert_eq!(car.elevator_state.wait_timer, DWELL_TICKS);

    let mut closing = idle_car();
    closing.elevator_state.state = State::Closing;
    assert!(closing.add_passenger());
    assert_eq!(closing.elevator_state.state, State::Opening);
}

#[test]
fn remove_passenger_never_goes_negative() {
    let mut car = idle_car();
    car.remove_passenger();
    assert_eq!(car.elevator_state.passenger_count, 0);
    assert_eq!(car.elevator_state.wait_timer, DWELL_TICKS);
    car.elevator_state.passenger_count = 2;
    car.elevator_state.state = State::Driving;
    car.elevator_state.wait_timer = 0;
    car.remove_passenger();
    assert_eq!(car.elevator_state.passenger_count, 1);
    assert_eq!(car.elevator_state.wait_timer, 0);
}

#[test]
fn reset_restores_initial_state() {
    let mut car = idle_car();
    car.add_request(5);
    assert!(car.add_passenger());
    for _ in 0..47 {
        car.tick();
    }
    car.reset();
    assert_initial(&car.elevator_state);
    assert_eq!(car.number, 0);
}

#[test]
fn paused_car_does_not_tick() {
    let mut car = idle_car();
    car.add_request(2);
    car.set_paused(true);
    assert!(car.is_paused());
    for _ in 0..10 {
        car.tick();
    }
    assert_eq!(car.elevator_state.door_progress, PROGRESS_STEPS);
    car.set_paused(false);
    car.tick();
    assert_eq!(car.elevator_state.door_progress, PROGRESS_STEPS - 1);
}

#[test]
fn entry_cooldown_counts_down() {
    let mut car = idle_car();
    assert!(car.add_passenger());
    car.tick();
    assert_eq!(car.elevator_state.entry_cooldown, ENTRY_COOLDOWN_TICKS - 1);
}

#[test]
fn state_queries() {
    let mut es = Elevator::new(0).elevator_state;
    assert!(es.serves_floor(0));
    assert!(!es.serves_floor(1));
    assert!(es.is_idle());
    assert!(!es.is_full());
    es.passenger_count = 2;
    assert!(es.is_full());
    es.state = State::Driving;
    es.direction = Direction::Up;
    assert!(es.heads_toward(1));
    assert!(!es.heads_toward(0));
    assert!(!es.serves_floor(0));
}
