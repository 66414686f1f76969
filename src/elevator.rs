//! One elevator car: its state, the per-tick state machine, and the
//! operations that riders and the dispatcher perform on it.
use vstd::prelude::*;

verus! {

/// Progress units in one floor of travel or in one full door movement.
/// Every tick advances a progress value by one unit.
pub const PROGRESS_STEPS: u32 = 20;

/// Ticks a car dwells with open doors before it may start closing them.
pub const DWELL_TICKS: u32 = 50;

/// Ticks after a boarding during which a further boarding is refused.
pub const ENTRY_COOLDOWN_TICKS: u32 = 10;

/// Passengers a car accepts through `add_passenger`.
pub const MAX_CAPACITY: i32 = 2;

/// Travel direction of a car.
#[derive(Clone, Copy, PartialEq, Eq, Debug, Structural)]
pub enum Direction {
    Up,
    Down,
}

/// Motion and door state of a car.
#[derive(Clone, Copy, PartialEq, Eq, Debug, Structural)]
pub enum State {
    Driving,
    Waiting,
    Closing,
    Opening,
}

/// Waiting, Opening and Closing: the doors are not shut in transit, so
/// riders can board.
pub open spec fn boarding_capable(st: State) -> bool {
    st == State::Waiting || st == State::Opening || st == State::Closing
}

/// Distance between two floors.
pub open spec fn dist(a: int, b: int) -> int {
    if a >= b {
        a - b
    } else {
        b - a
    }
}

/// The first of the requested floors that lies nearest to `floor`.
pub open spec fn nearest(reqs: Seq<i32>, floor: i32) -> i32
    decreases reqs.len(),
{
    if reqs.len() <= 1 {
        reqs[0]
    } else {
        let best = nearest(reqs.drop_last(), floor);
        if dist(reqs.last() as int, floor as int) < dist(best as int, floor as int) {
            reqs.last()
        } else {
            best
        }
    }
}

/// Holds of every floor but `f`.
pub open spec fn not_floor(f: i32) -> spec_fn(i32) -> bool {
    |x: i32| x != f
}

/// The mathematical picture of a car's state. Progress values count units
/// of `1 / PROGRESS_STEPS`: a door at `PROGRESS_STEPS` is fully open.
pub struct CarModel {
    pub floor: i32,
    pub destination: i32,
    pub requests: Seq<i32>,
    pub floor_progress: u32,
    pub direction: Direction,
    pub state: State,
    pub door_progress: u32,
    pub passenger_count: i32,
    pub wait_timer: u32,
    pub entry_cooldown: u32,
}

impl CarModel {
    /// The state of a fresh or reset car: idle at floor 0, doors open.
    pub open spec fn initial() -> CarModel {
        CarModel {
            floor: 0,
            destination: 0,
            requests: Seq::empty(),
            floor_progress: 0,
            direction: Direction::Up,
            state: State::Waiting,
            door_progress: PROGRESS_STEPS,
            passenger_count: 0,
            wait_timer: 0,
            entry_cooldown: 0,
        }
    }

    /// Bounds that hold in every reachable state; requests form a set.
    pub open spec fn wf(self) -> bool {
        &&& self.floor_progress < PROGRESS_STEPS
        &&& self.door_progress <= PROGRESS_STEPS
        &&& self.passenger_count >= 0
        &&& self.requests.no_duplicates()
    }

    /// A car that is not driving stands exactly at a floor.
    pub open spec fn rests_on_floor(self) -> bool {
        self.state != State::Driving ==> self.floor_progress == 0
    }

    /// At or above `MAX_CAPACITY` riders.
    pub open spec fn is_full(self) -> bool {
        self.passenger_count >= MAX_CAPACITY
    }

    /// Standing at `floor` with doors that let riders in.
    pub open spec fn serves_floor(self, floor: i32) -> bool {
        self.floor == floor && boarding_capable(self.state)
    }

    /// Waiting with nothing to do.
    pub open spec fn is_idle(self) -> bool {
        self.requests.len() == 0 && self.state == State::Waiting
    }

    /// Driving in a direction that carries it past `floor`.
    pub open spec fn heads_toward(self, floor: i32) -> bool {
        self.state == State::Driving && match self.direction {
            Direction::Up => self.floor < floor,
            Direction::Down => self.floor > floor,
        }
    }

    /// Redirects the car to the nearest request; no change without requests.
    pub open spec fn to_nearest(self) -> CarModel {
        if self.requests.len() > 0 {
            CarModel { destination: nearest(self.requests, self.floor), ..self }
        } else {
            self
        }
    }

    /// The state after `floor` is requested: the floor is added once, the
    /// destination becomes the nearest request, and a car that must leave
    /// its floor is nudged toward departure.
    pub open spec fn with_request(self, floor: i32) -> CarModel {
        let reqs = if self.requests.contains(floor) {
            self.requests
        } else {
            self.requests.push(floor)
        };
        let s = CarModel { requests: reqs, ..self }.to_nearest();
        if s.floor != s.destination {
            match s.state {
                State::Waiting => CarModel { wait_timer: DWELL_TICKS, state: State::Closing, ..s },
                State::Opening => CarModel { wait_timer: DWELL_TICKS, ..s },
                State::Closing => CarModel { wait_timer: 0, ..s },
                State::Driving => s,
            }
        } else {
            s
        }
    }

    /// Whether a boarding is accepted now.
    pub open spec fn accepts_passenger(self) -> bool {
        self.passenger_count < MAX_CAPACITY && self.entry_cooldown == 0
    }

    /// The state after a boarding that was accepted.
    pub open spec fn boarded(self) -> CarModel {
        let s = CarModel {
            entry_cooldown: ENTRY_COOLDOWN_TICKS,
            passenger_count: (self.passenger_count + 1) as i32,
            ..self
        };
        match s.state {
            State::Waiting => CarModel { wait_timer: DWELL_TICKS, ..s },
            State::Closing => CarModel { state: State::Opening, ..s },
            _ => s,
        }
    }

    /// The state after a boarding attempt, and whether it was accepted.
    pub open spec fn with_passenger(self) -> (CarModel, bool) {
        if self.accepts_passenger() {
            (self.boarded(), true)
        } else {
            (self, false)
        }
    }

    /// The state after a rider leaves the car.
    pub open spec fn without_passenger(self) -> CarModel {
        let s = if self.passenger_count > 0 {
            CarModel { passenger_count: (self.passenger_count - 1) as i32, ..self }
        } else {
            self
        };
        if s.state == State::Waiting {
            CarModel { wait_timer: DWELL_TICKS, ..s }
        } else {
            s
        }
    }

    /// Requests left once the current floor has been served.
    pub open spec fn served_requests(self) -> Seq<i32> {
        self.requests.filter(not_floor(self.floor))
    }

    /// The state one tick later.
    pub open spec fn next(self) -> CarModel {
        let s = CarModel {
            entry_cooldown: if self.entry_cooldown > 0 {
                (self.entry_cooldown - 1) as u32
            } else {
                0
            },
            ..self
        };
        match s.state {
            State::Driving => {
                if s.floor_progress == 0 && s.requests.contains(s.floor) {
                    let rest = s.served_requests();
                    let dest = if rest.len() > 0 {
                        nearest(rest, s.floor)
                    } else {
                        s.floor
                    };
                    CarModel { requests: rest, destination: dest, state: State::Opening, ..s }
                } else if s.floor != s.destination {
                    let dir = if s.destination > s.floor {
                        Direction::Up
                    } else {
                        Direction::Down
                    };
                    if s.floor_progress + 1 < PROGRESS_STEPS {
                        CarModel {
                            direction: dir,
                            floor_progress: (s.floor_progress + 1) as u32,
                            ..s
                        }
                    } else {
                        let f = if dir == Direction::Up {
                            (s.floor + 1) as i32
                        } else {
                            (s.floor - 1) as i32
                        };
                        CarModel { direction: dir, floor_progress: 0, floor: f, ..s }
                    }
                } else {
                    CarModel { state: State::Opening, ..s }
                }
            },
            State::Opening => {
                if s.door_progress < PROGRESS_STEPS {
                    CarModel { door_progress: (s.door_progress + 1) as u32, ..s }
                } else {
                    CarModel {
                        door_progress: PROGRESS_STEPS,
                        state: State::Waiting,
                        wait_timer: DWELL_TICKS,
                        ..s
                    }
                }
            },
            State::Closing => {
                if s.passenger_count > MAX_CAPACITY {
                    CarModel { state: State::Opening, ..s }
                } else if s.door_progress > 0 {
                    CarModel { door_progress: (s.door_progress - 1) as u32, ..s }
                } else {
                    CarModel { door_progress: 0, state: State::Driving, ..s }
                }
            },
            State::Waiting => {
                if s.passenger_count > MAX_CAPACITY {
                    s
                } else {
                    let t = if s.destination == s.floor && s.requests.len() > 0 {
                        s.to_nearest()
                    } else {
                        s
                    };
                    if t.wait_timer > 0 {
                        CarModel { wait_timer: (t.wait_timer - 1) as u32, ..t }
                    } else if t.floor != t.destination || t.requests.len() > 0 {
                        CarModel { state: State::Closing, ..t }
                    } else {
                        t
                    }
                }
            },
        }
    }
}

/// Filtering keeps only members of the sequence and adds no duplicates.
pub proof fn lemma_filter_no_duplicates(s: Seq<i32>, pred: spec_fn(i32) -> bool)
    requires
        s.no_duplicates(),
    ensures
        s.filter(pred).no_duplicates(),
        forall|x: i32| #[trigger] s.filter(pred).contains(x) ==> s.contains(x),
    decreases s.len(),
{
    reveal(Seq::filter);
    if s.len() > 0 {
        let init = s.drop_last();
        assert(init.no_duplicates());
        lemma_filter_no_duplicates(init, pred);
        let f = init.filter(pred);
        assert forall|x: i32| #[trigger] s.filter(pred).contains(x) implies s.contains(x) by {
            if f.contains(x) {
                assert(init.contains(x));
                let j = choose|j: int| 0 <= j < init.len() && init[j] == x;
                assert(s[j] == x);
            } else {
                assert(x == s.last());
            }
        }
        if pred(s.last()) {
            assert(!f.contains(s.last())) by {
                if f.contains(s.last()) {
                    assert(init.contains(s.last()));
                    let j = choose|j: int| 0 <= j < init.len() && init[j] == s.last();
                    assert(s[j] == s[s.len() - 1]);
                }
            }
            let g = f.push(s.last());
            assert forall|a: int, b: int| 0 <= a < g.len() && 0 <= b < g.len() && a != b
                implies g[a] != g[b] by {
                if a < f.len() && b < f.len() {
                    assert(g[a] == f[a] && g[b] == f[b]);
                } else if a < f.len() {
                    assert(f.contains(g[a]));
                } else {
                    assert(f.contains(g[b]));
                }
            }
        }
    }
}

/// The state after `n` ticks.
pub open spec fn steps(s: CarModel, n: nat) -> CarModel
    decreases n,
{
    if n == 0 {
        s
    } else {
        steps(s.next(), (n - 1) as nat)
    }
}

/// The bounds on progress values and rider count hold in the initial state
/// and survive a tick, a floor request, a boarding attempt and an alighting.
pub proof fn lemma_bounds_invariant(s: CarModel, floor: i32)
    requires
        s.wf(),
    ensures
        CarModel::initial().wf(),
        s.next().wf(),
        s.with_request(floor).wf(),
        s.with_passenger().0.wf(),
        s.without_passenger().wf(),
{
    lemma_filter_no_duplicates(s.requests, not_floor(s.floor));
}

/// A car that is not driving stands at a floor, in the initial state and
/// after every operation; a tick keeps it so unless it starts on a car that
/// is driving between floors toward the floor it just left.
pub proof fn lemma_rests_on_floor(s: CarModel, floor: i32)
    requires
        s.rests_on_floor(),
    ensures
        CarModel::initial().rests_on_floor(),
        s.with_request(floor).rests_on_floor(),
        s.with_passenger().0.rests_on_floor(),
        s.without_passenger().rests_on_floor(),
        !(s.state == State::Driving && s.floor_progress != 0 && s.floor == s.destination)
            ==> s.next().rests_on_floor(),
{
}

/// Requesting the same floor twice in a row leaves the requests as one
/// request does.
pub proof fn lemma_add_request_idempotent(s: CarModel, floor: i32)
    ensures
        s.with_request(floor).with_request(floor).requests == s.with_request(floor).requests,
{
    let once = s.with_request(floor);
    if !s.requests.contains(floor) {
        assert(s.requests.push(floor)[s.requests.len() as int] == floor);
    }
    assert(once.requests.contains(floor));
}

/// Ticks never change the number of riders.
pub proof fn lemma_steps_keep_passengers(s: CarModel, n: nat)
    ensures
        steps(s, n).passenger_count == s.passenger_count,
    decreases n,
{
    if n > 0 {
        lemma_steps_keep_passengers(s.next(), (n - 1) as nat);
    }
}

/// After two accepted boardings, with any number of ticks between and
/// after them, a further boarding is refused and changes nothing.
pub proof fn lemma_capacity(s: CarModel, gap: nat, after: nat)
    requires
        s.wf(),
        s.with_passenger().1,
        steps(s.with_passenger().0, gap).with_passenger().1,
    ensures
        ({
            let full = steps(steps(s.with_passenger().0, gap).with_passenger().0, after);
            full.with_passenger() == (full, false)
        }),
{
    let one = s.with_passenger().0;
    lemma_steps_keep_passengers(one, gap);
    let two = steps(one, gap).with_passenger().0;
    lemma_steps_keep_passengers(two, after);
}

/// Of two boardings with no tick between them, the second is refused.
pub proof fn lemma_cooldown(s: CarModel)
    ensures
        s.with_passenger().1 ==> !s.with_passenger().0.with_passenger().1,
{
}

/// The state of one car.
pub struct ElevatorState {
    pub floor: i32,
    pub destination: i32,
    pub requests: Vec<i32>,
    pub floor_progress: u32,
    pub direction: Direction,
    pub state: State,
    pub door_progress: u32,
    pub passenger_count: i32,
    pub wait_timer: u32,
    pub entry_cooldown: u32,
}

impl View for ElevatorState {
    type V = CarModel;

    open spec fn view(&self) -> CarModel {
        CarModel {
            floor: self.floor,
            destination: self.destination,
            requests: self.requests@,
            floor_progress: self.floor_progress,
            direction: self.direction,
            state: self.state,
            door_progress: self.door_progress,
            passenger_count: self.passenger_count,
            wait_timer: self.wait_timer,
            entry_cooldown: self.entry_cooldown,
        }
    }
}

/// Distance between two floors, without overflow.
pub fn floor_distance(a: i32, b: i32) -> (r: i64)
    ensures
        r == dist(a as int, b as int),
{
    let d = a as i64 - b as i64;
    if d >= 0 {
        d
    } else {
        -d
    }
}

impl ElevatorState {
    fn pick_nearest_destination(&mut self)
        ensures
            final(self)@ == old(self)@.to_nearest(),
    {
        let n = self.requests.len();
        if n == 0 {
            return;
        }
        let mut best = self.requests[0];
        let mut best_dist = floor_distance(best, self.floor);
        let mut i: usize = 1;
        while i < n
            invariant
                n == self.requests@.len(),
                1 <= i <= n,
                best == nearest(self.requests@.subrange(0, i as int), self.floor),
                best_dist == dist(best as int, self.floor as int),
            decreases n - i,
        {
            let r = self.requests[i];
            let d = floor_distance(r, self.floor);
            assert(self.requests@.subrange(0, i + 1).drop_last() =~= self.requests@.subrange(0, i as int));
            if d < best_dist {
                best = r;
                best_dist = d;
            }
            i += 1;
        }
        assert(self.requests@.subrange(0, n as int) =~= self.requests@);
        self.destination = best;
    }
}


fn contains_floor(v: &Vec<i32>, f: i32) -> (r: bool)
    ensures
        r == v@.contains(f),
{
    let mut i: usize = 0;
    while i < v.len()
        invariant
            forall|j: int| 0 <= j < i ==> v@[j] != f,
        decreases v.len() - i,
    {
        if v[i] == f {
            return true;
        }
        i += 1;
    }
    false
}

impl ElevatorState {
    fn remove_current_floor(&mut self)
        ensures
            final(self)@ == (CarModel { requests: old(self)@.served_requests(), ..old(self)@ }),
    {
        let f = self.floor;
        let ghost pred = not_floor(f);
        let mut kept: Vec<i32> = Vec::new();
        let mut i: usize = 0;
        while i < self.requests.len()
            invariant
                f == self.floor,
                pred == not_floor(f),
                kept@ == self.requests@.subrange(0, i as int).filter(pred),
                i <= self.requests@.len(),
            decreases self.requests@.len() - i,
        {
            let r = self.requests[i];
            let ghost next = self.requests@.subrange(0, i + 1);
            proof {
                assert(next.drop_last() =~= self.requests@.subrange(0, i as int));
                assert(next.last() == r);
                reveal(Seq::filter);
                assert(pred(r) == (r != f));
            }
            if r != f {
                kept.push(r);
            }
            proof {
                reveal(Seq::filter);
                assert(kept@ =~= next.filter(pred));
            }
            i += 1;
        }
        assert(self.requests@.subrange(0, self.requests@.len() as int) =~= self.requests@);
        self.requests = kept;
    }

    /// Advances the car by one tick of its state machine.
    pub fn step(&mut self)
        requires
            old(self)@.wf(),
        ensures
            final(self)@ == old(self)@.next(),
            final(self)@.wf(),
    {
        if self.entry_cooldown > 0 {
            self.entry_cooldown -= 1;
        }
        match self.state {
            State::Driving => {
                if self.floor_progress == 0 && contains_floor(&self.requests, self.floor) {
                    proof {
                        lemma_filter_no_duplicates(self.requests@, not_floor(self.floor));
                    }
                    self.remove_current_floor();
                    if self.requests.len() > 0 {
                        self.pick_nearest_destination();
                    } else {
                        self.destination = self.floor;
                    }
                    self.state = State::Opening;
                    return;
                }
                if self.floor != self.destination {
                    if self.destination > self.floor {
                        self.direction = Direction::Up;
                    } else {
                        self.direction = Direction::Down;
                    }
                    self.floor_progress += 1;
                    if self.floor_progress >= PROGRESS_STEPS {
                        self.floor_progress = 0;
                        match self.direction {
                            Direction::Up => self.floor += 1,
                            Direction::Down => self.floor -= 1,
                        }
                    }
                } else {
                    self.state = State::Opening;
                }
            },
            State::Opening => {
                if self.door_progress < PROGRESS_STEPS {
                    self.door_progress += 1;
                } else {
                    self.door_progress = PROGRESS_STEPS;
                    self.state = State::Waiting;
                    self.wait_timer = DWELL_TICKS;
                }
            },
            State::Closing => {
                // Strictly above capacity: a late boarder keeps the doors open.
                if self.passenger_count > MAX_CAPACITY {
                    self.state = State::Opening;
                    return;
                }
                if self.door_progress > 0 {
                    self.door_progress -= 1;
                } else {
                    self.door_progress = 0;
                    self.state = State::Driving;
                }
            },
            State::Waiting => {
                if self.passenger_count > MAX_CAPACITY {
                    return;
                }
                if self.destination == self.floor && self.requests.len() > 0 {
                    self.pick_nearest_destination();
                }
                if self.wait_timer > 0 {
                    self.wait_timer -= 1;
                } else if self.floor != self.destination || self.requests.len() > 0 {
                    self.state = State::Closing;
                }
            },
        }
    }
}

impl ElevatorState {
    /// At or above capacity.
    pub fn is_full(&self) -> (r: bool)
        ensures
            r == self@.is_full(),
    {
        self.passenger_count >= MAX_CAPACITY
    }

    /// Standing at `floor` with doors that let riders in.
    pub fn serves_floor(&self, floor: i32) -> (r: bool)
        ensures
            r == self@.serves_floor(floor),
    {
        self.floor == floor && (self.state == State::Waiting || self.state == State::Opening
            || self.state == State::Closing)
    }

    /// Waiting with no requests.
    pub fn is_idle(&self) -> (r: bool)
        ensures
            r == self@.is_idle(),
    {
        self.requests.len() == 0 && self.state == State::Waiting
    }

    /// Driving in a direction that carries it past `floor`.
    pub fn heads_toward(&self, floor: i32) -> (r: bool)
        ensures
            r == self@.heads_toward(floor),
    {
        self.state == State::Driving && match self.direction {
            Direction::Up => self.floor < floor,
            Direction::Down => self.floor > floor,
        }
    }
}

/// One car: its number in the bank, its state, and whether its ticking is
/// suspended.
pub struct Elevator {
    pub number: usize,
    pub elevator_state: ElevatorState,
    pub paused: bool,
}

impl Elevator {
    /// A car with the given number, idle at floor 0 with open doors.
    pub fn new(number: usize) -> (r: Elevator)
        ensures
            r.number == number,
            r.elevator_state@ == CarModel::initial(),
            !r.paused,
    {
        Elevator {
            number,
            elevator_state: ElevatorState {
                floor: 0,
                destination: 0,
                requests: Vec::new(),
                floor_progress: 0,
                direction: Direction::Up,
                state: State::Waiting,
                door_progress: PROGRESS_STEPS,
                passenger_count: 0,
                wait_timer: 0,
                entry_cooldown: 0,
            },
            paused: false,
        }
    }

    /// Adds `floor` to the car's requests and steers toward the nearest one.
    pub fn add_request(&mut self, floor: i32)
        ensures
            final(self).elevator_state@ == old(self).elevator_state@.with_request(floor),
            final(self).number == old(self).number,
            final(self).paused == old(self).paused,
    {
        let es = &mut self.elevator_state;
        if !contains_floor(&es.requests, floor) {
            es.requests.push(floor);
        }
        es.pick_nearest_destination();
        if es.floor != es.destination {
            match es.state {
                State::Waiting => {
                    es.wait_timer = DWELL_TICKS;
                    es.state = State::Closing;
                },
                State::Opening => {
                    es.wait_timer = DWELL_TICKS;
                },
                State::Closing => {
                    es.wait_timer = 0;
                },
                State::Driving => {},
            }
        }
    }

    /// Lets one rider board; refused while full or during the entry cooldown.
    pub fn add_passenger(&mut self) -> (r: bool)
        ensures
            (final(self).elevator_state@, r) == old(self).elevator_state@.with_passenger(),
            final(self).number == old(self).number,
            final(self).paused == old(self).paused,
    {
        let es = &mut self.elevator_state;
        if es.passenger_count >= MAX_CAPACITY {
            return false;
        }
        if es.entry_cooldown > 0 {
            return false;
        }
        es.entry_cooldown = ENTRY_COOLDOWN_TICKS;
        es.passenger_count += 1;
        if es.state == State::Waiting {
            es.wait_timer = DWELL_TICKS;
        }
        if es.state == State::Closing {
            es.state = State::Opening;
        }
        true
    }

    /// Lets one rider leave the car.
    pub fn remove_passenger(&mut self)
        ensures
            final(self).elevator_state@ == old(self).elevator_state@.without_passenger(),
            final(self).number == old(self).number,
            final(self).paused == old(self).paused,
    {
        let es = &mut self.elevator_state;
        if es.passenger_count > 0 {
            es.passenger_count -= 1;
        }
        if es.state == State::Waiting {
            es.wait_timer = DWELL_TICKS;
        }
    }

    /// Puts the car back into its initial state, whatever it was doing.
    pub fn reset(&mut self)
        ensures
            final(self).elevator_state@ == CarModel::initial(),
            final(self).number == old(self).number,
            final(self).paused == old(self).paused,
    {
        let es = &mut self.elevator_state;
        es.floor = 0;
        es.destination = 0;
        es.requests.clear();
        es.floor_progress = 0;
        es.direction = Direction::Up;
        es.state = State::Waiting;
        es.door_progress = PROGRESS_STEPS;
        es.passenger_count = 0;
        es.wait_timer = 0;
        es.entry_cooldown = 0;
    }

    /// Suspends or resumes the car's ticking.
    pub fn set_paused(&mut self, paused: bool)
        ensures
            final(self).paused == paused,
            final(self).number == old(self).number,
            final(self).elevator_state@ == old(self).elevator_state@,
    {
        self.paused = paused;
    }

    /// Whether the car's ticking is suspended.
    pub fn is_paused(&self) -> (r: bool)
        ensures
            r == self.paused,
    {
        self.paused
    }

    /// One tick of the car: a state-machine step unless paused.
    pub fn tick(&mut self)
        requires
            old(self).elevator_state@.wf(),
        ensures
            final(self).elevator_state@ == if old(self).paused {
                old(self).elevator_state@
            } else {
                old(self).elevator_state@.next()
            },
            final(self).elevator_state@.wf(),
            final(self).number == old(self).number,
            final(self).paused == old(self).paused,
    {
        if !self.paused {
            self.elevator_state.step();
        }
    }
}

} // verus!
