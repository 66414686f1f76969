//! What happens to the people in the building on each outer tick: the
//! dispatcher runs, a newcomer may appear, riders at their destination
//! leave, and waiting people board a car that serves their floor or call
//! one.
use vstd::prelude::*;
use crate::elevator::{CarModel, State};
use crate::elevator_controller::{CAR_COUNT, ControllerModel, ElevatorController, lemma_controller_wf};
use crate::person::{FLOORS, Person};
use crate::random::random_ratio;

verus! {

/// No newcomer appears once this many people are in the building.
pub const MAX_PERSONS: usize = 30;

/// A newcomer appears on a tick with chance `SPAWN_NUMERATOR / SPAWN_DENOMINATOR`.
pub const SPAWN_NUMERATOR: u32 = 3;

/// See `SPAWN_NUMERATOR`.
pub const SPAWN_DENOMINATOR: u32 = 20;

/// The first car from `i` on that serves `floor` and would accept a rider.
pub open spec fn boarding_car(cars: Seq<CarModel>, floor: i32, i: int) -> Option<int>
    decreases cars.len() - i,
{
    if i < 0 || i >= cars.len() {
        None
    } else if cars[i].serves_floor(floor) && cars[i].with_passenger().1 {
        Some(i)
    } else {
        boarding_car(cars, floor, i + 1)
    }
}

/// One person on one tick. A rider whose car waits at their destination
/// leaves it and the building; a waiting person boards the first car that
/// serves their floor and accepts them, and sends it to their destination,
/// or else calls a car. Gives the dispatcher, the person, and whether the
/// person has left.
pub open spec fn move_person(m: ControllerModel, p: Person) -> (ControllerModel, Person, bool) {
    if p.in_elevator {
        match p.elevator_id {
            Some(id) => {
                let c = m.cars[id as int];
                if c.floor == p.destination && c.state == State::Waiting {
                    (
                        ControllerModel { cars: m.cars.update(id as int, c.without_passenger()), ..m },
                        p,
                        true,
                    )
                } else {
                    (m, p, false)
                }
            },
            None => (m, p, false),
        }
    } else {
        match boarding_car(m.cars, p.floor, 0) {
            Some(k) => (
                ControllerModel {
                    cars: m.cars.update(k, m.cars[k].boarded().with_request(p.destination)),
                    ..m
                },
                Person { in_elevator: true, elevator_id: Some(k as i32), ..p },
                false,
            ),
            None => (m.with_call(p.floor, p.call_direction()), p, false),
        }
    }
}

/// All people in order, each against the state the ones before left.
/// Gives the dispatcher and the people still in the building.
pub open spec fn move_all(m: ControllerModel, ps: Seq<Person>) -> (ControllerModel, Seq<Person>)
    decreases ps.len(),
{
    if ps.len() == 0 {
        (m, ps)
    } else {
        let (m1, kept) = move_all(m, ps.drop_last());
        let (m2, p, gone) = move_person(m1, ps.last());
        (m2, if gone {
            kept
        } else {
            kept.push(p)
        })
    }
}

/// Every person refers only to existing cars.
pub open spec fn rides_valid(ps: Seq<Person>) -> bool {
    forall|i: int| 0 <= i < ps.len() ==> (#[trigger] ps[i]).ride_valid()
}

/// A person as `Person::new_rnd` makes them.
pub open spec fn fresh_person(p: Person) -> bool {
    &&& 0 <= p.floor < FLOORS
    &&& 0 <= p.destination < FLOORS
    &&& p.floor != p.destination
    &&& !p.in_elevator
    &&& p.elevator_id is None
}

/// The people of a tick before they move: those there were, and possibly
/// one newcomer when there is room and newcomers are not switched off.
pub open spec fn after_spawn(before: Seq<Person>, manual: bool, after: Seq<Person>) -> bool {
    after == before || (before.len() < MAX_PERSONS && !manual && exists|p: Person|
        fresh_person(p) && after == before.push(p))
}

fn move_one(controller: &mut ElevatorController, p: Person) -> (out: (Person, bool))
    requires
        old(controller).wf(),
        p.ride_valid(),
    ensures
        final(controller).wf(),
        (final(controller)@, out.0, out.1) == move_person(old(controller)@, p),
        out.0.ride_valid(),
{
    if p.in_elevator {
        if let Some(id) = p.elevator_id {
            let st = &controller.get_elevator(id).elevator_state;
            if st.floor == p.destination && st.state == State::Waiting {
                controller.elevator_remove_passenger(id as usize);
                return (p, true);
            }
        }
        return (p, false);
    }
    let ghost start = controller@;
    proof {
        lemma_controller_wf(controller);
    }
    let mut k: usize = 0;
    while k < CAR_COUNT
        invariant
            k <= CAR_COUNT,
            !p.in_elevator,
            controller.wf(),
            controller@ == start,
            start == old(controller)@,
            start.cars.len() == CAR_COUNT,
            boarding_car(start.cars, p.floor, k as int) == boarding_car(start.cars, p.floor, 0),
        decreases CAR_COUNT - k,
    {
        if controller.get_elevator(k as i32).elevator_state.serves_floor(p.floor) {
            if controller.elevator_add_passenger(k) {
                assert(boarding_car(start.cars, p.floor, k as int) == Some(k as int));
                controller.elevator_add_request(k, p.destination);
                assert(start.cars.update(k as int, start.cars[k as int].boarded()).update(
                    k as int,
                    start.cars[k as int].boarded().with_request(p.destination),
                ) =~= start.cars.update(
                    k as int,
                    start.cars[k as int].boarded().with_request(p.destination),
                ));
                assert(controller@.cars == start.cars.update(
                    k as int,
                    start.cars[k as int].boarded().with_request(p.destination),
                ));
                return (Person { in_elevator: true, elevator_id: Some(k as i32), ..p }, false);
            }
            assert(controller@.cars =~= start.cars);
        }
        k += 1;
    }
    let mut waiting = p;
    waiting.press_button_up_or_down(controller);
    (p, false)
}

/// Moves every person for one tick; see `move_all`.
pub fn move_persons(controller: &mut ElevatorController, persons: &mut Vec<Person>)
    requires
        old(controller).wf(),
        rides_valid(old(persons)@),
    ensures
        final(controller).wf(),
        (final(controller)@, final(persons)@) == move_all(old(controller)@, old(persons)@),
        rides_valid(final(persons)@),
{
    let ghost start = controller@;
    let ghost people = persons@;
    let n = persons.len();
    let mut kept: Vec<Person> = Vec::new();
    let mut i: usize = 0;
    while i < n
        invariant
            n == people.len(),
            i <= n,
            persons@ == people,
            rides_valid(people),
            controller.wf(),
            (controller@, kept@) == move_all(start, people.subrange(0, i as int)),
            rides_valid(kept@),
        decreases n - i,
    {
        let p = persons[i];
        assert(people[i as int].ride_valid());
        let (p2, gone) = move_one(controller, p);
        proof {
            let pre = people.subrange(0, i + 1);
            assert(pre.drop_last() =~= people.subrange(0, i as int));
            assert(pre.last() == p);
        }
        if !gone {
            kept.push(p2);
            assert forall|j: int| 0 <= j < kept@.len() implies (#[trigger] kept@[j]).ride_valid() by {
                if j < kept@.len() - 1 {
                    assert(kept@[j] == kept@.drop_last()[j]);
                }
            }
        }
        i += 1;
    }
    assert(people.subrange(0, n as int) =~= people);
    *persons = kept;
}

/// One outer tick of the simulation: a dispatcher update, possibly a
/// newcomer (unless `manual`), then every person moves.
pub fn update_simulation(
    controller: &mut ElevatorController,
    persons: &mut Vec<Person>,
    manual: bool,
)
    requires
        old(controller).wf(),
        rides_valid(old(persons)@),
    ensures
        final(controller).wf(),
        rides_valid(final(persons)@),
        exists|spawned: Seq<Person>|
            after_spawn(old(persons)@, manual, spawned) && #[trigger] move_all(
                old(controller)@.dispatched(),
                spawned,
            ) == (final(controller)@, final(persons)@),
{
    controller.update();
    let ghost before = persons@;
    if persons.len() < MAX_PERSONS && random_ratio(SPAWN_NUMERATOR, SPAWN_DENOMINATOR) && !manual {
        let p = Person::new_rnd();
        persons.push(p);
        assert(fresh_person(p) && persons@ == before.push(p));
    }
    assert(rides_valid(persons@)) by {
        assert forall|j: int| 0 <= j < persons@.len() implies (#[trigger] persons@[j]).ride_valid() by {
            if j < before.len() {
                assert(persons@[j] == before[j]);
            }
        }
    }
    let ghost spawned = persons@;
    move_persons(controller, persons);
    assert(after_spawn(before, manual, spawned));
}

} // verus!
