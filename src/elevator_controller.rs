//! The dispatcher: owns the cars and the outstanding hall calls, and on
//! every update assigns calls to cars and retires the ones being served.
use vstd::prelude::*;
use crate::elevator::{CarModel, Direction, Elevator, dist, floor_distance};

verus! {

/// Number of cars in the bank.
pub const CAR_COUNT: usize = 3;

/// A hall call: someone at `floor` wants to travel in `direction`.
#[derive(Clone, Copy, PartialEq, Eq, Debug, Structural)]
pub struct PickupRequest {
    pub floor: i32,
    pub direction: Direction,
    pub assigned_elevator: Option<usize>,
}

/// What the dispatcher holds: each car's state and pause flag, and the
/// pending calls in arrival order.
pub struct ControllerModel {
    pub cars: Seq<CarModel>,
    pub paused: Seq<bool>,
    pub pending: Seq<PickupRequest>,
}

/// No two calls share a floor and a direction.
pub open spec fn calls_unique(p: Seq<PickupRequest>) -> bool {
    forall|i: int, j: int|
        0 <= i < j < p.len() ==> !(#[trigger] p[i].floor == #[trigger] p[j].floor && p[i].direction
            == p[j].direction)
}

/// Every assignment names an existing car.
pub open spec fn assignments_valid(p: Seq<PickupRequest>) -> bool {
    forall|i: int|
        0 <= i < p.len() && (#[trigger] p[i]).assigned_elevator is Some
            ==> p[i].assigned_elevator.unwrap() < CAR_COUNT
}

/// Some pending call has this floor and direction.
pub open spec fn has_call(p: Seq<PickupRequest>, floor: i32, direction: Direction) -> bool {
    exists|i: int| 0 <= i < p.len() && #[trigger] p[i].floor == floor && p[i].direction == direction
}

/// The scan for a car to serve a call at `floor`, from car `i` on, with the
/// best candidate so far and its distance. Full cars are skipped; a car
/// already serving the floor wins at once; otherwise the first car at the
/// least distance among idle cars and cars heading toward the floor.
pub open spec fn pick_car(
    cars: Seq<CarModel>,
    floor: i32,
    i: int,
    best: Option<usize>,
    min_dist: int,
) -> Option<usize>
    decreases cars.len() - i,
{
    if i < 0 || i >= cars.len() {
        best
    } else {
        let c = cars[i];
        if c.is_full() {
            pick_car(cars, floor, i + 1, best, min_dist)
        } else if c.serves_floor(floor) {
            Some(i as usize)
        } else if (c.is_idle() || c.heads_toward(floor)) && dist(c.floor as int, floor as int)
            < min_dist {
            pick_car(cars, floor, i + 1, Some(i as usize), dist(c.floor as int, floor as int))
        } else {
            pick_car(cars, floor, i + 1, best, min_dist)
        }
    }
}

/// The car chosen for a call at `floor`, if any is eligible.
pub open spec fn best_car(cars: Seq<CarModel>, floor: i32) -> Option<usize> {
    pick_car(cars, floor, 0, None, i32::MAX as int)
}

/// One call in one update: a full car that is not serving the floor loses
/// the call; an unassigned call goes to the best car, which is sent to the
/// floor; the call is done once its car serves the floor and is not full.
/// Gives the cars, the call, and whether it is done.
pub open spec fn serve_call(cars: Seq<CarModel>, r: PickupRequest) -> (
    Seq<CarModel>,
    PickupRequest,
    bool,
) {
    let r1 = match r.assigned_elevator {
        Some(c) => if cars[c as int].is_full() && !cars[c as int].serves_floor(r.floor) {
            PickupRequest { assigned_elevator: None, ..r }
        } else {
            r
        },
        None => r,
    };
    let (cars2, r2) = if r1.assigned_elevator is None {
        match best_car(cars, r.floor) {
            Some(b) => (
                cars.update(b as int, cars[b as int].with_request(r.floor)),
                PickupRequest { assigned_elevator: Some(b), ..r1 },
            ),
            None => (cars, r1),
        }
    } else {
        (cars, r1)
    };
    let done = match r2.assigned_elevator {
        Some(c) => cars2[c as int].serves_floor(r.floor) && !cars2[c as int].is_full(),
        None => false,
    };
    (cars2, r2, done)
}

/// All calls in order, each against the cars that the calls before it left.
/// Gives the cars and the calls that stay pending.
pub open spec fn dispatch(cars: Seq<CarModel>, reqs: Seq<PickupRequest>) -> (
    Seq<CarModel>,
    Seq<PickupRequest>,
)
    decreases reqs.len(),
{
    if reqs.len() == 0 {
        (cars, reqs)
    } else {
        let (c1, kept) = dispatch(cars, reqs.drop_last());
        let (c2, r, done) = serve_call(c1, reqs.last());
        (c2, if done {
            kept
        } else {
            kept.push(r)
        })
    }
}

impl ControllerModel {
    /// Every car within its bounds, and the calls well formed.
    pub open spec fn wf(self) -> bool {
        &&& self.cars.len() == CAR_COUNT
        &&& self.paused.len() == CAR_COUNT
        &&& forall|i: int| 0 <= i < CAR_COUNT ==> (#[trigger] self.cars[i]).wf()
        &&& calls_unique(self.pending)
        &&& assignments_valid(self.pending)
    }

    /// The state after one dispatcher update.
    pub open spec fn dispatched(self) -> ControllerModel {
        let (cars, pending) = dispatch(self.cars, self.pending);
        ControllerModel { cars, pending, ..self }
    }

    /// The state after a call at `floor` toward `direction`: added,
    /// unassigned, unless such a call is already pending.
    pub open spec fn with_call(self, floor: i32, direction: Direction) -> ControllerModel {
        if has_call(self.pending, floor, direction) {
            self
        } else {
            ControllerModel {
                pending: self.pending.push(
                    PickupRequest { floor, direction, assigned_elevator: None },
                ),
                ..self
            }
        }
    }
}

/// The bank of cars and the pending hall calls.
pub struct ElevatorController {
    elevators: [Elevator; 3],
    pickup_requests: Vec<PickupRequest>,
}

impl View for ElevatorController {
    type V = ControllerModel;

    closed spec fn view(&self) -> ControllerModel {
        ControllerModel {
            cars: Seq::new(3, |i: int| self.elevators[i].elevator_state@),
            paused: Seq::new(3, |i: int| self.elevators[i].paused),
            pending: self.pickup_requests@,
        }
    }
}

impl ElevatorController {
    /// The cars are numbered by their place and the model is well formed.
    /// Every value built through this API satisfies it.
    pub closed spec fn wf(&self) -> bool {
        &&& self@.wf()
        &&& forall|i: int| 0 <= i < CAR_COUNT ==> (#[trigger] self.elevators[i]).number == i
    }

    /// Three idle cars numbered 0, 1, 2 and no pending calls.
    pub fn new_with_elevators() -> (r: ElevatorController)
        ensures
            r.wf(),
            r@.cars =~= seq![CarModel::initial(), CarModel::initial(), CarModel::initial()],
            r@.paused =~= seq![false, false, false],
            r@.pending.len() == 0,
    {
        let r = ElevatorController {
            elevators: [Elevator::new(0), Elevator::new(1), Elevator::new(2)],
            pickup_requests: Vec::new(),
        };
        assert(r@.cars =~= seq![CarModel::initial(), CarModel::initial(), CarModel::initial()]);
        r
    }

    /// Records a hall call; a call with the same floor and direction that is
    /// already pending is kept as it is.
    pub fn request_elevator(&mut self, floor: i32, direction: Direction)
        requires
            old(self).wf(),
        ensures
            final(self).wf(),
            final(self)@ == old(self)@.with_call(floor, direction),
    {
        let n = self.pickup_requests.len();
        let mut i: usize = 0;
        while i < n
            invariant
                self.wf(),
                n == self.pickup_requests@.len(),
                i <= n,
                forall|j: int|
                    0 <= j < i ==> !(#[trigger] self.pickup_requests@[j].floor == floor
                        && self.pickup_requests@[j].direction == direction),
            decreases n - i,
        {
            let r = self.pickup_requests[i];
            if r.floor == floor && r.direction == direction {
                return;
            }
            i += 1;
        }
        self.pickup_requests.push(PickupRequest { floor, direction, assigned_elevator: None });
        assert(self@.cars =~= old(self)@.cars);
        assert(self@.paused =~= old(self)@.paused);
    }

    /// The car that a call at `floor` would be given now.
    fn best_car_for(&self, floor: i32) -> (r: Option<usize>)
        requires
            self.wf(),
        ensures
            r == best_car(self@.cars, floor),
            r is Some ==> r.unwrap() < CAR_COUNT,
    {
        let mut best: Option<usize> = None;
        let mut min_dist: i64 = i32::MAX as i64;
        let mut idx: usize = 0;
        while idx < CAR_COUNT
            invariant
                self.wf(),
                idx <= CAR_COUNT,
                pick_car(self@.cars, floor, idx as int, best, min_dist as int) == best_car(
                    self@.cars,
                    floor,
                ),
                best is Some ==> best.unwrap() < CAR_COUNT,
            decreases CAR_COUNT - idx,
        {
            let st = &self.elevators[idx].elevator_state;
            assert(self@.cars[idx as int] == st@);
            if !st.is_full() {
                if st.serves_floor(floor) {
                    return Some(idx);
                }
                let d = floor_distance(st.floor, floor);
                if (st.is_idle() || st.heads_toward(floor)) && d < min_dist {
                    min_dist = d;
                    best = Some(idx);
                }
            }
            idx += 1;
        }
        best
    }

    /// Handles one call against the cars; gives the call as it stands
    /// afterwards and whether it is done.
    fn serve(&mut self, r: PickupRequest) -> (out: (PickupRequest, bool))
        requires
            old(self).wf(),
            r.assigned_elevator is Some ==> r.assigned_elevator.unwrap() < CAR_COUNT,
        ensures
            final(self).wf(),
            (final(self)@.cars, out.0, out.1) == serve_call(old(self)@.cars, r),
            final(self)@.paused == old(self)@.paused,
            final(self)@.pending == old(self)@.pending,
            out.0.floor == r.floor,
            out.0.direction == r.direction,
            out.0.assigned_elevator is Some ==> out.0.assigned_elevator.unwrap() < CAR_COUNT,
    {
        let ghost cars0 = self@.cars;
        let floor = r.floor;
        let mut req = r;
        if let Some(idx) = req.assigned_elevator {
            let st = &self.elevators[idx].elevator_state;
            assert(cars0[idx as int] == st@);
            if st.is_full() && !st.serves_floor(floor) {
                req.assigned_elevator = None;
            }
        }
        if req.assigned_elevator.is_none() {
            let best = self.best_car_for(floor);
            if let Some(b) = best {
                req.assigned_elevator = Some(b);
                self.elevators[b].add_request(floor);
                assert(self@.cars =~= cars0.update(b as int, cars0[b as int].with_request(floor)));
            }
        }
        assert(self@.paused =~= old(self)@.paused);
        let mut done = false;
        if let Some(idx) = req.assigned_elevator {
            let st = &self.elevators[idx].elevator_state;
            assert(self@.cars[idx as int] == st@);
            done = st.serves_floor(floor) && !st.is_full();
        }
        (req, done)
    }

    /// One dispatcher pass over the pending calls, in order: each call is
    /// checked, assigned if need be, and retired once its car serves it.
    pub fn update(&mut self)
        requires
            old(self).wf(),
        ensures
            final(self).wf(),
            final(self)@ == old(self)@.dispatched(),
    {
        let ghost start = self@;
        let n = self.pickup_requests.len();
        let mut kept: Vec<PickupRequest> = Vec::new();
        let mut i: usize = 0;
        while i < n
            invariant
                n == start.pending.len(),
                i <= n,
                self.pickup_requests@ == start.pending,
                self.wf(),
                self@.paused == start.paused,
                (self@.cars, kept@) == dispatch(start.cars, start.pending.subrange(0, i as int)),
                calls_unique(kept@),
                assignments_valid(kept@),
                forall|j: int|
                    0 <= j < kept@.len() ==> exists|m: int|
                        0 <= m < i && #[trigger] kept@[j].floor == start.pending[m].floor
                            && kept@[j].direction == start.pending[m].direction,
            decreases n - i,
        {
            let r = self.pickup_requests[i];
            let ghost kept0 = kept@;
            let ghost cars0 = self@.cars;
            let (r2, done) = self.serve(r);
            proof {
                let pre = start.pending.subrange(0, i + 1);
                assert(pre.drop_last() =~= start.pending.subrange(0, i as int));
                assert(pre.last() == r);
            }
            if !done {
                kept.push(r2);
                proof {
                    assert forall|a: int, b: int|
                        0 <= a < b < kept@.len() implies !(#[trigger] kept@[a].floor
                        == #[trigger] kept@[b].floor && kept@[a].direction
                        == kept@[b].direction) by {
                        if b == kept@.len() - 1 {
                            let m = choose|m: int|
                                0 <= m < i && #[trigger] kept0[a].floor == start.pending[m].floor
                                    && kept0[a].direction == start.pending[m].direction;
                            assert(kept0[a] == kept@[a]);
                        } else {
                            assert(kept0[a] == kept@[a] && kept0[b] == kept@[b]);
                        }
                    }
                    assert forall|j: int|
                        0 <= j < kept@.len() && (#[trigger] kept@[j]).assigned_elevator is Some
                        implies kept@[j].assigned_elevator.unwrap() < CAR_COUNT by {
                        if j < kept0.len() {
                            assert(kept0[j] == kept@[j]);
                        }
                    }
                    assert forall|j: int| 0 <= j < kept@.len() implies exists|m: int|
                        0 <= m < i + 1 && #[trigger] kept@[j].floor == start.pending[m].floor
                            && kept@[j].direction == start.pending[m].direction by {
                        if j < kept0.len() {
                            assert(kept0[j] == kept@[j]);
                        } else {
                            assert(kept@[j].floor == start.pending[i as int].floor);
                        }
                    }
                }
            }
            i += 1;
        }
        assert(start.pending.subrange(0, n as int) =~= start.pending);
        self.pickup_requests = kept;
    }

    /// Resets every car and drops all pending calls.
    pub fn reset(&mut self)
        requires
            old(self).wf(),
        ensures
            final(self).wf(),
            final(self)@.cars =~= seq![CarModel::initial(), CarModel::initial(), CarModel::initial()],
            final(self)@.paused == old(self)@.paused,
            final(self)@.pending.len() == 0,
    {
        let mut idx: usize = 0;
        while idx < CAR_COUNT
            invariant
                idx <= CAR_COUNT,
                self.pickup_requests@ == old(self).pickup_requests@,
                self@.paused == old(self)@.paused,
                forall|k: int| 0 <= k < CAR_COUNT ==> (#[trigger] self.elevators[k]).number == k,
                forall|k: int|
                    0 <= k < idx ==> (#[trigger] self.elevators[k]).elevator_state@
                        == CarModel::initial(),
                forall|k: int| idx <= k < CAR_COUNT ==> #[trigger] self.elevators[k] == old(self).elevators[k],
            decreases CAR_COUNT - idx,
        {
            let ghost before = self@;
            self.elevators[idx].reset();
            assert(self@.paused =~= before.paused);
            idx += 1;
        }
        self.pickup_requests.clear();
        assert(self@.paused =~= old(self)@.paused);
        assert(self@.cars =~= seq![CarModel::initial(), CarModel::initial(), CarModel::initial()]);
    }

    /// Suspends or resumes the ticking of every car.
    pub fn set_paused(&mut self, paused: bool)
        requires
            old(self).wf(),
        ensures
            final(self).wf(),
            final(self)@.paused =~= seq![paused, paused, paused],
            final(self)@.cars == old(self)@.cars,
            final(self)@.pending == old(self)@.pending,
    {
        let mut idx: usize = 0;
        while idx < CAR_COUNT
            invariant
                idx <= CAR_COUNT,
                self.pickup_requests@ == old(self).pickup_requests@,
                self@.cars == old(self)@.cars,
                forall|k: int| 0 <= k < CAR_COUNT ==> (#[trigger] self.elevators[k]).number == k,
                forall|k: int| 0 <= k < idx ==> (#[trigger] self.elevators[k]).paused == paused,
            decreases CAR_COUNT - idx,
        {
            let ghost before = self@;
            self.elevators[idx].set_paused(paused);
            assert(self@.cars =~= before.cars);
            idx += 1;
        }
        assert(self@.paused =~= seq![paused, paused, paused]);
    }

    /// One tick of car `idx`.
    pub fn tick_elevator(&mut self, idx: usize)
        requires
            old(self).wf(),
            idx < CAR_COUNT,
        ensures
            final(self).wf(),
            final(self)@ == (ControllerModel {
                cars: old(self)@.cars.update(
                    idx as int,
                    if old(self)@.paused[idx as int] {
                        old(self)@.cars[idx as int]
                    } else {
                        old(self)@.cars[idx as int].next()
                    },
                ),
                ..old(self)@
            }),
    {
        assert(self@.cars[idx as int].wf());
        self.elevators[idx].tick();
        assert(self@.cars =~= old(self)@.cars.update(
            idx as int,
            if old(self)@.paused[idx as int] {
                old(self)@.cars[idx as int]
            } else {
                old(self)@.cars[idx as int].next()
            },
        ));
        assert(self@.paused =~= old(self)@.paused);
    }

    /// Sends car `idx` to `floor`.
    pub fn elevator_add_request(&mut self, idx: usize, floor: i32)
        requires
            old(self).wf(),
            idx < CAR_COUNT,
        ensures
            final(self).wf(),
            final(self)@ == (ControllerModel {
                cars: old(self)@.cars.update(idx as int, old(self)@.cars[idx as int].with_request(floor)),
                ..old(self)@
            }),
    {
        self.elevators[idx].add_request(floor);
        assert(self@.cars =~= old(self)@.cars.update(idx as int, old(self)@.cars[idx as int].with_request(floor)));
        assert(self@.paused =~= old(self)@.paused);
    }

    /// Lets one rider board car `idx`; gives whether the car accepted.
    pub fn elevator_add_passenger(&mut self, idx: usize) -> (r: bool)
        requires
            old(self).wf(),
            idx < CAR_COUNT,
        ensures
            final(self).wf(),
            r == old(self)@.cars[idx as int].with_passenger().1,
            final(self)@ == (ControllerModel {
                cars: old(self)@.cars.update(idx as int, old(self)@.cars[idx as int].with_passenger().0),
                ..old(self)@
            }),
    {
        let r = self.elevators[idx].add_passenger();
        assert(self@.cars =~= old(self)@.cars.update(idx as int, old(self)@.cars[idx as int].with_passenger().0));
        assert(self@.paused =~= old(self)@.paused);
        r
    }

    /// Lets one rider leave car `idx`.
    pub fn elevator_remove_passenger(&mut self, idx: usize)
        requires
            old(self).wf(),
            idx < CAR_COUNT,
        ensures
            final(self).wf(),
            final(self)@ == (ControllerModel {
                cars: old(self)@.cars.update(idx as int, old(self)@.cars[idx as int].without_passenger()),
                ..old(self)@
            }),
    {
        self.elevators[idx].remove_passenger();
        assert(self@.cars =~= old(self)@.cars.update(idx as int, old(self)@.cars[idx as int].without_passenger()));
        assert(self@.paused =~= old(self)@.paused);
    }

    /// Car `idx`.
    pub fn get_elevator(&self, idx: i32) -> (r: &Elevator)
        requires
            self.wf(),
            0 <= idx < CAR_COUNT,
        ensures
            r.number == idx as usize,
            r.elevator_state@ == self@.cars[idx as int],
            r.paused == self@.paused[idx as int],
    {
        &self.elevators[idx as usize]
    }

    /// All cars, in order of their numbers.
    pub fn get_elevators(&self) -> (r: &[Elevator; 3])
        requires
            self.wf(),
        ensures
            forall|i: int|
                0 <= i < CAR_COUNT ==> (#[trigger] r[i]).number == i && r[i].elevator_state@
                    == self@.cars[i] && r[i].paused == self@.paused[i],
    {
        &self.elevators
    }

    /// The pending calls, oldest first.
    pub fn pickup_requests(&self) -> (r: &Vec<PickupRequest>)
        ensures
            r@ == self@.pending,
    {
        &self.pickup_requests
    }

}

/// Every dispatcher built through this API has three cars, each within its
/// bounds (door and travel progress in range, no negative rider count), and
/// well-formed calls.
pub proof fn lemma_controller_wf(c: &ElevatorController)
    requires
        c.wf(),
    ensures
        c@.wf(),
{
}

/// A call assigned to a car that is not full keeps that car, and the cars
/// are left as they are: the dispatcher never moves such a call elsewhere.
pub proof fn lemma_assignment_kept(cars: Seq<CarModel>, r: PickupRequest)
    requires
        r.assigned_elevator is Some,
        !cars[r.assigned_elevator.unwrap() as int].is_full(),
    ensures
        serve_call(cars, r).0 == cars,
        serve_call(cars, r).1 == r,
{
}

} // verus!
