//! Where the values of an execution are on their course: in which slot, and in the layout of which
//! stage.

use vstd::prelude::*;

use crate::crew::enclosed_done;
use crate::crew::enclosed_outcome;
use crate::crew::enclosing_exchange;
use crate::crew::in_turn;
use crate::crew::open_outcome;
use crate::crew::Crew;
use crate::crew::OverlapCrew;
use crate::crew::Overlapped;
use crate::crew::Pieces;
use crate::error::Failure;
use crate::error::FftOverlapError;
use crate::error::OverlapError;
use crate::run::is_piece;
use crate::schedule::arrive_step;
use crate::schedule::copy_step;
use crate::schedule::endpoint_step;
use crate::schedule::exchange_step;
use crate::schedule::Itinerary;
use crate::schedule::Mode;
use crate::schedule::Slot;
use crate::schedule::Step;
use crate::schedule::Work;
use crate::success::lemma_turn_holds;
use crate::success::pieces_hold;
use crate::success::steps_hold;

verus! {

/// Where values are.
pub struct Place {
    /// The slot that they lie in.
    pub slot: Slot,
    /// The stage whose layout they lie in.
    pub stage: int,
}

/// The kernel of a stage may lead from one slot to another.
pub open spec fn kernel_leads(route: Itinerary, forward: bool, stage: int, from: Slot, to: Slot) -> bool {
    if !route.kind.spec_has_boundary() {
        (from == Slot::Source || from == Slot::Complex) && (to == Slot::Complex || (to
            == Slot::Destination && from == Slot::Complex))
    } else if stage < route.boundary {
        if forward {
            (from == Slot::Source || from == Slot::Real) && to == Slot::Real
        } else {
            from == Slot::Real && (to == Slot::Real || to == Slot::Destination)
        }
    } else if stage == route.boundary {
        if forward {
            (from == Slot::Source || from == Slot::Real) && to == Slot::Complex
        } else {
            from == Slot::Complex && (to == Slot::Real || to == Slot::Destination)
        }
    } else if forward {
        from == Slot::Complex && (to == Slot::Complex || to == Slot::Destination)
    } else {
        (from == Slot::Source || from == Slot::Complex) && to == Slot::Complex
    }
}

/// A copy may lead from one slot to another.
pub open spec fn copy_leads(route: Itinerary, forward: bool, stage: int, from: Slot, to: Slot) -> bool {
    if !route.kind.spec_has_boundary() {
        (from == Slot::Source && to == Slot::Complex) || (from == Slot::Complex && to
            == Slot::Destination)
    } else if forward {
        (from == Slot::Source && to == Slot::Real && stage < route.boundary) || (from
            == Slot::Complex && to == Slot::Destination)
    } else {
        (from == Slot::Source && to == Slot::Complex) || (from == Slot::Real && to
            == Slot::Destination)
    }
}

/// Where values are behind a step; nowhere, if it does not follow.
pub open spec fn next_place(route: Itinerary, forward: bool, step: Step, at: Place) -> Option<Place> {
    let (first, last) = if forward {
        (0, route.stages - 1)
    } else {
        (route.stages - 1, 0)
    };
    if step.from != at.slot || !(0 <= at.stage < route.stages) || (step.from == Slot::Source
        && at.stage != first) || (step.to == Slot::Destination && at.stage != last) {
        None
    } else {
        match step.work {
            Work::Copy => if copy_leads(route, forward, at.stage, step.from, step.to) {
                Some(Place { slot: step.to, stage: at.stage })
            } else {
                None
            },
            Work::Kernel(stage) => if stage == at.stage && kernel_leads(
                route,
                forward,
                at.stage,
                step.from,
                step.to,
            ) {
                Some(Place { slot: step.to, stage: at.stage })
            } else {
                None
            },
            Work::Exchange(index) => {
                let behind = !route.kind.spec_has_boundary() || index >= route.boundary;
                if step.to == step.from && step.from == (if !behind {
                    Slot::Real
                } else {
                    Slot::Complex
                }) && index + 1 < route.stages && at.stage == (if forward {
                    index as int
                } else {
                    index + 1
                }) {
                    Some(
                        Place {
                            slot: at.slot,
                            stage: if forward {
                                index + 1
                            } else {
                                index as int
                            },
                        },
                    )
                } else {
                    None
                }
            },
            Work::Validate | Work::Clear => if step.to == step.from && step.from == Slot::Complex
                && route.kind.spec_has_boundary() && !forward && at.stage >= route.boundary {
                Some(at)
            } else {
                None
            },
            Work::Arrive => if step.to == step.from && at.stage == (if forward {
                route.stages - 1
            } else {
                0
            }) && step.from == (if forward {
                Slot::Complex
            } else {
                Slot::Real
            }) && route.kind.spec_has_boundary() {
                Some(at)
            } else {
                None
            },
        }
    }
}

/// Where values are behind a list of steps; nowhere, if one does not follow.
pub open spec fn led(route: Itinerary, forward: bool, steps: Seq<Step>, at: Place) -> Option<Place>
    decreases steps.len(),
{
    if steps.len() == 0 {
        Some(at)
    } else {
        match led(route, forward, steps.drop_last(), at) {
            Some(between) => next_place(route, forward, steps.last(), between),
            None => None,
        }
    }
}

proof fn lemma_led_push(route: Itinerary, forward: bool, steps: Seq<Step>, step: Step, at: Place)
    ensures
        led(route, forward, steps.push(step), at) == match led(route, forward, steps, at) {
            Some(between) => next_place(route, forward, step, between),
            None => None,
        },
{
    assert(steps.push(step).drop_last() =~= steps);
}

proof fn lemma_led_concat(
    route: Itinerary,
    forward: bool,
    first: Seq<Step>,
    second: Seq<Step>,
    at: Place,
)
    ensures
        led(route, forward, first + second, at) == match led(route, forward, first, at) {
            Some(between) => led(route, forward, second, between),
            None => None,
        },
    decreases second.len(),
{
    if second.len() == 0 {
        assert(first + second =~= first);
    } else {
        assert((first + second).drop_last() =~= first + second.drop_last());
        lemma_led_concat(route, forward, first, second.drop_last(), at);
    }
}

/// Where values are behind `step`, if they were somewhere in front of it.
spec fn onward(route: Itinerary, forward: bool, step: Step, at: Option<Place>) -> Option<Place> {
    match at {
        Some(place) => next_place(route, forward, step, place),
        None => None,
    }
}

proof fn lemma_led_few(route: Itinerary, forward: bool, steps: Seq<Step>, at: Place)
    ensures
        steps.len() == 0 ==> led(route, forward, steps, at) == Some(at),
        steps.len() == 1 ==> led(route, forward, steps, at) == next_place(
            route,
            forward,
            steps[0],
            at,
        ),
        steps.len() == 2 ==> led(route, forward, steps, at) == onward(
            route,
            forward,
            steps[1],
            next_place(route, forward, steps[0], at),
        ),
        steps.len() == 3 ==> led(route, forward, steps, at) == onward(
            route,
            forward,
            steps[2],
            onward(route, forward, steps[1], next_place(route, forward, steps[0], at)),
        ),
{
    if steps.len() <= 3 {
        reveal_with_fuel(led, 4);
    }
}

impl Itinerary {
    /// The slot in which values lie behind the work of a stage on the way there.
    pub open spec fn slot_there(&self, mode: Mode, stage: int) -> Slot {
        if self.kind.spec_has_boundary() && stage < self.boundary {
            Slot::Real
        } else if stage == self.last() && stage > self.boundary && mode == Mode::OutOfPlace {
            Slot::Destination
        } else {
            Slot::Complex
        }
    }

    /// Where the values of a forward execution start.
    pub open spec fn start_there(&self, mode: Mode) -> Place {
        Place {
            slot: if mode != Mode::InPlace {
                Slot::Source
            } else if self.kind.spec_has_boundary() {
                Slot::Real
            } else {
                Slot::Complex
            },
            stage: 0,
        }
    }

    /// Where the values of a reverse execution start.
    pub open spec fn start_home(&self, mode: Mode) -> Place {
        Place {
            slot: if mode != Mode::InPlace {
                Slot::Source
            } else {
                Slot::Complex
            },
            stage: self.last(),
        }
    }

    /// The slot in which values lie behind the work of a stage on the way home.
    pub open spec fn slot_home(&self, mode: Mode, stage: int) -> Slot {
        if self.kind.spec_has_boundary() {
            if stage > self.boundary {
                Slot::Complex
            } else if stage == 0 && (mode == Mode::OutOfPlace || (mode == Mode::Overlap
                && self.boundary == 0)) {
                Slot::Destination
            } else {
                Slot::Real
            }
        } else if stage == 0 && mode == Mode::OutOfPlace {
            Slot::Destination
        } else {
            Slot::Complex
        }
    }

    proof fn lemma_leg_there(&self, mode: Mode, stage: int, eager: Seq<bool>)
        requires
            self.wf(),
            0 <= stage <= self.last(),
        ensures
            led(*self, true, self.forward_leg(mode, stage, eager), self.start_there(mode)) == Some(
                Place { slot: self.slot_there(mode, stage), stage },
            ),
        decreases stage,
    {
        let start = self.start_there(mode);
        if stage > 0 {
            self.lemma_leg_there(mode, stage - 1, eager);
            let before = self.forward_leg(mode, stage - 1, eager);
            let step = exchange_step(
                stage - 1,
                if stage <= self.boundary {
                    Slot::Real
                } else {
                    Slot::Complex
                },
                mode,
                self.kind.spec_agrees(),
            );
            lemma_led_push(*self, true, before, step, start);
            let between = Place { slot: self.slot_there(mode, stage - 1), stage };
            assert(led(*self, true, before.push(step), start) == Some(between));
            lemma_led_concat(
                *self,
                true,
                before.push(step),
                self.arrival(mode, stage, eager),
                start,
            );
            lemma_led_few(*self, true, self.arrival(mode, stage, eager), between);
        } else {
            lemma_led_few(*self, true, self.entry(mode), start);
        }
    }

    /// The values of a forward execution follow the steps to the end.
    pub proof fn law_led_there(&self, mode: Mode, eager: Seq<bool>)
        requires
            self.wf(),
        ensures
            led(*self, true, self.forward_list(mode, eager), self.start_there(mode)) == Some(
                Place {
                    slot: if mode == Mode::InPlace {
                        Slot::Complex
                    } else {
                        Slot::Destination
                    },
                    stage: self.last(),
                },
            ),
    {
        let start = self.start_there(mode);
        let leg = self.forward_leg(mode, self.last(), eager);
        self.lemma_leg_there(mode, self.last(), eager);
        lemma_led_push(*self, true, leg, copy_step(Slot::Complex, Slot::Destination, false), start);
        lemma_led_push(*self, true, leg, arrive_step(Slot::Complex), start);
    }

    proof fn lemma_crossing_led(&self, mode: Mode, checked: bool, agreed: bool, within: bool)
        requires
            self.wf(),
            checked ==> self.kind.spec_has_boundary(),
        ensures
            led(
                *self,
                false,
                self.crossing(mode, checked, agreed, within),
                Place { slot: Slot::Complex, stage: self.boundary as int },
            ) == Some(
                Place {
                    slot: if !self.kind.spec_has_boundary() {
                        if mode == Mode::OutOfPlace {
                            Slot::Destination
                        } else {
                            Slot::Complex
                        }
                    } else if self.boundary == 0 && mode != Mode::InPlace {
                        Slot::Destination
                    } else {
                        Slot::Real
                    },
                    stage: self.boundary as int,
                },
            ),
    {
        lemma_led_few(
            *self,
            false,
            self.crossing(mode, checked, agreed, within),
            Place { slot: Slot::Complex, stage: self.boundary as int },
        );
    }

    proof fn lemma_leg_home(&self, mode: Mode, stage: int, eager: Seq<bool>)
        requires
            self.wf(),
            0 <= stage <= self.last(),
        ensures
            led(*self, false, self.reverse_leg(mode, stage, eager), self.start_home(mode)) == Some(
                Place { slot: self.slot_home(mode, stage), stage },
            ),
        decreases self.last() - stage,
    {
        let start = self.start_home(mode);
        let agreed = self.kind.spec_agrees();
        if stage < self.last() {
            self.lemma_leg_home(mode, stage + 1, eager);
            let above = self.reverse_leg(mode, stage + 1, eager);
            let high = Place { slot: self.slot_home(mode, stage + 1), stage: stage + 1 };
            let checks = seq![
                endpoint_step(Work::Validate, false, false),
                endpoint_step(Work::Clear, false, false),
            ];
            lemma_led_concat(*self, false, above, checks, start);
            lemma_led_few(*self, false, checks, high);
            let checked = if self.checks_early(mode, stage) {
                above + checks
            } else {
                above
            };
            assert(led(*self, false, checked, start) == Some(high));
            let step = exchange_step(
                stage,
                if stage < self.boundary {
                    Slot::Real
                } else {
                    Slot::Complex
                },
                mode,
                agreed,
            );
            lemma_led_push(*self, false, checked, step, start);
            let between = Place { slot: high.slot, stage };
            assert(led(*self, false, checked.push(step), start) == Some(between));
            let home = self.return_to(mode, stage, eager);
            lemma_led_concat(*self, false, checked.push(step), home, start);
            lemma_led_few(*self, false, home, between);
            let within = mode == Mode::Overlap && eager[stage];
            self.lemma_crossing_led(
                mode,
                self.kind.spec_has_boundary() && !self.checks_early(mode, stage),
                agreed && (mode != Mode::Overlap || (!within && self.kind.spec_has_boundary())),
                within,
            );
        } else {
            let at_boundary = self.boundary == self.last();
            if at_boundary && (mode != Mode::Overlap || self.kind.spec_has_boundary()) {
                let crossing = self.crossing(mode, self.kind.spec_has_boundary(), agreed, false);
                self.lemma_crossing_led(mode, self.kind.spec_has_boundary(), agreed, false);
                if mode == Mode::InPlace {
                    assert(self.reverse_entry(mode) =~= crossing);
                } else {
                    let entered = seq![copy_step(Slot::Source, Slot::Complex, agreed)];
                    lemma_led_few(*self, false, entered, start);
                    lemma_led_concat(*self, false, entered, crossing, start);
                }
            } else {
                lemma_led_few(*self, false, self.reverse_entry(mode), start);
            }
        }
    }

    /// The values of a reverse execution follow the steps to the end.
    pub proof fn law_led_home(&self, mode: Mode, eager: Seq<bool>)
        requires
            self.wf(),
        ensures
            led(*self, false, self.reverse_list(mode, eager), self.start_home(mode)) == Some(
                Place {
                    slot: if mode != Mode::InPlace {
                        Slot::Destination
                    } else if self.kind.spec_has_boundary() {
                        Slot::Real
                    } else {
                        Slot::Complex
                    },
                    stage: 0,
                },
            ),
    {
        let start = self.start_home(mode);
        let leg = self.reverse_leg(mode, 0, eager);
        self.lemma_leg_home(mode, 0, eager);
        lemma_led_push(*self, false, leg, copy_step(Slot::Complex, Slot::Destination, false), start);
        lemma_led_push(*self, false, leg, copy_step(Slot::Real, Slot::Destination, false), start);
        lemma_led_push(*self, false, leg, arrive_step(Slot::Real), start);
    }
}

/// No step of a crew that is one of those `allowed` and follows where values are fails, and each
/// leads to where they are next.
pub open spec fn keeps_course<D, E, C: Crew<D, E>>(
    crew: C,
    route: Itinerary,
    forward: bool,
    allowed: spec_fn(Step) -> bool,
    lies: spec_fn(Place, D) -> bool,
) -> bool {
    forall|step: Step, at: Place, from: D, to: D, outcome: Result<(), E>|
        #![trigger next_place(route, forward, step, at), crew.does(step, from, to, outcome)]
        crew.does(step, from, to, outcome) && lies(at, from) && allowed(step) && next_place(
            route,
            forward,
            step,
            at,
        ) is Some ==> outcome is Ok && lies(next_place(route, forward, step, at)->0, to)
}

/// All steps of a list are among those `allowed`.
pub open spec fn all_allowed(steps: Seq<Step>, allowed: spec_fn(Step) -> bool) -> bool {
    forall|i: int| 0 <= i < steps.len() ==> allowed(#[trigger] steps[i])
}

/// The values are where the first `index` steps of a list led them.
pub open spec fn on_course<D>(
    route: Itinerary,
    forward: bool,
    steps: Seq<Step>,
    start: Place,
    lies: spec_fn(Place, D) -> bool,
    index: int,
    state: D,
) -> bool {
    led(route, forward, steps.take(index), start) matches Some(at) && lies(at, state)
}

/// A crew that keeps the course fails in no step of a list that leads somewhere.
pub proof fn lemma_course_holds<D, E, C: Crew<D, E>>(
    crew: C,
    route: Itinerary,
    forward: bool,
    steps: Seq<Step>,
    start: Place,
    allowed: spec_fn(Step) -> bool,
    lies: spec_fn(Place, D) -> bool,
)
    requires
        keeps_course::<D, E, C>(crew, route, forward, allowed, lies),
        all_allowed(steps, allowed),
        led(route, forward, steps, start) is Some,
    ensures
        steps_hold::<D, E, C>(
            crew,
            steps,
            |index: int, state: D| on_course(route, forward, steps, start, lies, index, state),
        ),
{
    let sound = |index: int, state: D| on_course(route, forward, steps, start, lies, index, state);
    assert forall|i: int, from: D, to: D, local: Result<(), E>|
        0 <= i < steps.len() && #[trigger] crew.does(steps[i], from, to, local) && sound(
            i,
            from,
        ) implies local is Ok && sound(i + 1, to) by {
        lemma_led_prefix(route, forward, steps, start, i + 1);
        lemma_led_push(route, forward, steps.take(i), steps[i], start);
        assert(steps.take(i + 1) =~= steps.take(i).push(steps[i]));
        let at = led(route, forward, steps.take(i), start)->0;
        assert(next_place(route, forward, steps[i], at) is Some);
    }
}

/// What leads somewhere leads somewhere all the way.
proof fn lemma_led_prefix(route: Itinerary, forward: bool, steps: Seq<Step>, start: Place, end: int)
    requires
        led(route, forward, steps, start) is Some,
        0 <= end <= steps.len(),
    ensures
        led(route, forward, steps.take(end), start) is Some,
    decreases steps.len() - end,
{
    if end == steps.len() {
        assert(steps.take(end) =~= steps);
    } else {
        lemma_led_prefix(route, forward, steps, start, end + 1);
        assert(steps.take(end + 1).drop_last() =~= steps.take(end));
    }
}

/// A step reads and writes the array of an in-place execution.
pub open spec fn stays_inside(step: Step) -> bool {
    &&& !(step.work is Copy)
    &&& step.from == Slot::Real || step.from == Slot::Complex
    &&& step.to == Slot::Real || step.to == Slot::Complex
}

/// A step belongs to an execution from source to destination: it needs no array of real values where
/// the boundary is the first stage, and does not check an arrival in place.
pub open spec fn stays_outside(route: Itinerary, step: Step) -> bool {
    &&& !(step.work is Arrive)
    &&& route.boundary == 0 ==> step.from != Slot::Real && step.to != Slot::Real
}

impl Itinerary {
    proof fn lemma_leg_there_inside(&self, stage: int, eager: Seq<bool>)
        requires
            self.wf(),
            0 <= stage <= self.last(),
        ensures
            all_allowed(self.forward_leg(Mode::InPlace, stage, eager), |step: Step| stays_inside(step)),
        decreases stage,
    {
        if stage > 0 {
            self.lemma_leg_there_inside(stage - 1, eager);
        }
    }

    proof fn lemma_leg_home_inside(&self, stage: int, eager: Seq<bool>)
        requires
            self.wf(),
            0 <= stage <= self.last(),
        ensures
            all_allowed(self.reverse_leg(Mode::InPlace, stage, eager), |step: Step| stays_inside(step)),
        decreases self.last() - stage,
    {
        if stage < self.last() {
            self.lemma_leg_home_inside(stage + 1, eager);
        }
    }

    proof fn lemma_leg_there_outside(&self, mode: Mode, stage: int, eager: Seq<bool>)
        requires
            self.wf(),
            mode != Mode::InPlace,
            0 <= stage <= self.last(),
        ensures
            all_allowed(self.forward_leg(mode, stage, eager), |step: Step| stays_outside(*self, step)),
        decreases stage,
    {
        if stage > 0 {
            self.lemma_leg_there_outside(mode, stage - 1, eager);
        }
    }

    proof fn lemma_leg_home_outside(&self, mode: Mode, stage: int, eager: Seq<bool>)
        requires
            self.wf(),
            mode != Mode::InPlace,
            0 <= stage <= self.last(),
        ensures
            all_allowed(self.reverse_leg(mode, stage, eager), |step: Step| stays_outside(*self, step)),
        decreases self.last() - stage,
    {
        if stage < self.last() {
            self.lemma_leg_home_outside(mode, stage + 1, eager);
        }
    }

    /// An execution from source to destination whose boundary is its first stage needs no array of
    /// real values.
    pub proof fn law_stays_outside(&self, mode: Mode, eager: Seq<bool>)
        requires
            self.wf(),
            mode != Mode::InPlace,
        ensures
            all_allowed(self.forward_list(mode, eager), |step: Step| stays_outside(*self, step)),
            all_allowed(self.reverse_list(mode, eager), |step: Step| stays_outside(*self, step)),
    {
        self.lemma_leg_there_outside(mode, self.last(), eager);
        self.lemma_leg_home_outside(mode, 0, eager);
    }

    /// An in-place execution reads and writes its array alone.
    pub proof fn law_stays_inside(&self, eager: Seq<bool>)
        requires
            self.wf(),
        ensures
            all_allowed(self.forward_list(Mode::InPlace, eager), |step: Step| stays_inside(step)),
            all_allowed(self.reverse_list(Mode::InPlace, eager), |step: Step| stays_inside(step)),
    {
        self.lemma_leg_there_inside(self.last(), eager);
        self.lemma_leg_home_inside(0, eager);
    }
}

/// The parts of exchanges succeed: values that came in are in the layout of the next stage, and
/// waiting leaves them where they are.
pub open spec fn parts_keep_course<D, E, C: OverlapCrew<D, E>>(
    crew: C,
    route: Itinerary,
    forward: bool,
    lies: spec_fn(Place, D) -> bool,
) -> bool {
    &&& forall|step: Step, index: usize, at: Place, from: D, to: D, outcome: Result<(), OverlapError<E>>|
        #![trigger next_place(route, forward, step, at), crew.lands(index, from, to, outcome)]
        crew.lands(index, from, to, outcome) && step.work == Work::Exchange(index) && lies(at, from)
            && next_place(route, forward, step, at) is Some ==> outcome is Ok && lies(
            next_place(route, forward, step, at)->0,
            to,
        )
    &&& forall|index: usize, at: Place, from: D, to: D, outcome: Result<(), OverlapError<E>>|
        #![trigger crew.settles(index, true, from, to, outcome), lies(at, from)]
        crew.settles(index, true, from, to, outcome) && lies(at, from) ==> outcome is Ok && lies(
            at,
            to,
        )
}

/// A crew that keeps the course fails in no piece with overlap of a list that leads somewhere.
pub proof fn lemma_overlap_course_holds<D, E: Failure, C: OverlapCrew<D, E>>(
    crew: C,
    route: Itinerary,
    forward: bool,
    steps: Seq<Step>,
    start: Place,
    allowed: spec_fn(Step) -> bool,
    lies: spec_fn(Place, D) -> bool,
)
    requires
        keeps_course::<D, E, C>(crew, route, forward, allowed, lies),
        all_allowed(steps, allowed),
        parts_keep_course::<D, E, C>(crew, route, forward, lies),
        led(route, forward, steps, start) is Some,
    ensures
        pieces_hold::<D, FftOverlapError<E>, Overlapped<C>>(
            Overlapped { crew: &crew },
            steps,
            |index: int, state: D| on_course(route, forward, steps, start, lies, index, state),
        ),
{
    let sound = |index: int, state: D| on_course(route, forward, steps, start, lies, index, state);
    let pieces = Overlapped { crew: &crew };
    lemma_course_holds::<D, E, C>(crew, route, forward, steps, start, allowed, lies);
    assert forall|low: int, high: int, from: D, to: D, outcome: Result<(), FftOverlapError<E>>|
        #[trigger]
        Pieces::<D, FftOverlapError<E>>::done(&pieces, steps.subrange(low, high), from, to, outcome)
            && is_piece(steps, low, high) && sound(low, from) implies outcome is Ok && sound(
        high,
        to,
    ) by {
        let piece = steps.subrange(low, high);
        match enclosing_exchange::<D, E, C>(crew, piece) {
            None => {
                let local = choose|local: Result<(), E>| #[trigger]
                    in_turn::<D, E, C>(crew, piece, from, to, local) && outcome == open_outcome(
                        local,
                    );
                lemma_turn_holds::<D, E, C>(crew, steps, low, high, from, to, local, sound);
            },
            Some(index) => {
                let (landed, landing) = choose|landed: D, landing: Result<(), OverlapError<E>>|
                    #[trigger]
                    crew.lands(index, from, landed, landing) && match landing {
                        Err(error) => to == landed && outcome == Err::<(), FftOverlapError<E>>(
                            FftOverlapError::Overlap(error),
                        ),
                        Ok(_) => enclosed_done::<D, E, C>(
                            crew,
                            index,
                            piece.skip(1),
                            landed,
                            to,
                            outcome,
                        ),
                    };
                let at = led(route, forward, steps.take(low), start)->0;
                lemma_led_prefix(route, forward, steps, start, low + 1);
                lemma_led_push(route, forward, steps.take(low), steps[low], start);
                assert(steps.take(low + 1) =~= steps.take(low).push(steps[low]));
                assert(next_place(route, forward, steps[low], at) is Some);
                assert(piece[0] == steps[low]);
                assert(landing is Ok && sound(low + 1, landed));
                let rest = piece.skip(1);
                assert(rest =~= steps.subrange(low + 1, high));
                let (worked, local, answer) = choose|
                    worked: D,
                    local: Result<(), E>,
                    answer: Result<(), OverlapError<E>>,
                |
                    {
                        &&& #[trigger] in_turn::<D, E, C>(crew, rest, landed, worked, local)
                        &&& #[trigger] crew.settles(index, local is Ok, worked, to, answer)
                        &&& outcome == enclosed_outcome(local, answer)
                    };
                lemma_turn_holds::<D, E, C>(crew, steps, low + 1, high, landed, worked, local, sound);
                assert(crew.settles(index, true, worked, to, answer));
                let there = led(route, forward, steps.take(high), start)->0;
                assert(lies(there, worked));
            },
        }
    }
}

/// The step checks the endpoint planes, or clears them.
pub open spec fn is_check(step: Step) -> bool {
    step.work is Validate || step.work is Clear
}

/// As [`keeps_course`], but that the checks of the endpoint planes may fail.
pub open spec fn keeps_course_checked<D, E, C: Crew<D, E>>(
    crew: C,
    route: Itinerary,
    forward: bool,
    allowed: spec_fn(Step) -> bool,
    lies: spec_fn(Place, D) -> bool,
) -> bool {
    forall|step: Step, at: Place, from: D, to: D, outcome: Result<(), E>|
        #![trigger next_place(route, forward, step, at), crew.does(step, from, to, outcome)]
        crew.does(step, from, to, outcome) && lies(at, from) && allowed(step) && next_place(
            route,
            forward,
            step,
            at,
        ) is Some ==> (outcome is Ok || is_check(step)) && (outcome is Ok ==> lies(
            next_place(route, forward, step, at)->0,
            to,
        ))
}

/// What `reached` tells of a state and of how many steps are behind it holds on, and the endpoint
/// planes pass their checks where it holds.
pub open spec fn checks_pass<D, E, C: Crew<D, E>>(
    crew: C,
    steps: Seq<Step>,
    reached: spec_fn(int, D) -> bool,
) -> bool {
    forall|i: int, from: D, to: D, outcome: Result<(), E>|
        0 <= i < steps.len() && #[trigger] crew.does(steps[i], from, to, outcome) && reached(i, from)
            ==> (is_check(steps[i]) ==> outcome is Ok) && (outcome is Ok ==> reached(i + 1, to))
}

/// What `reached` tells holds on inside an exchange: once the values came in, the exchange counts as
/// behind it, and waiting changes nothing of it.
pub open spec fn reached_inside<D, E, C: OverlapCrew<D, E>>(
    crew: C,
    steps: Seq<Step>,
    reached: spec_fn(int, D) -> bool,
) -> bool {
    &&& forall|i: int, index: usize, from: D, to: D|
        #![trigger steps[i], crew.lands(index, from, to, Ok(()))]
        0 <= i < steps.len() && steps[i].work == Work::Exchange(index) && crew.lands(
            index,
            from,
            to,
            Ok(()),
        ) && reached(i, from) ==> reached(i + 1, to)
    &&& forall|i: int, index: usize, from: D, to: D|
        #![trigger reached(i, from), crew.settles(index, true, from, to, Ok(()))]
        crew.settles(index, true, from, to, Ok(())) && reached(i, from) ==> reached(i, to)
}

/// A crew that keeps the course, and whose checks pass, fails in no step of a list that leads
/// somewhere.
pub proof fn lemma_checked_course_holds<D, E, C: Crew<D, E>>(
    crew: C,
    route: Itinerary,
    forward: bool,
    steps: Seq<Step>,
    start: Place,
    allowed: spec_fn(Step) -> bool,
    lies: spec_fn(Place, D) -> bool,
    reached: spec_fn(int, D) -> bool,
)
    requires
        keeps_course_checked::<D, E, C>(crew, route, forward, allowed, lies),
        all_allowed(steps, allowed),
        checks_pass::<D, E, C>(crew, steps, reached),
        led(route, forward, steps, start) is Some,
    ensures
        steps_hold::<D, E, C>(
            crew,
            steps,
            |index: int, state: D|
                on_course(route, forward, steps, start, lies, index, state) && reached(index, state),
        ),
{
    let sound = |index: int, state: D|
        on_course(route, forward, steps, start, lies, index, state) && reached(index, state);
    assert forall|i: int, from: D, to: D, local: Result<(), E>|
        0 <= i < steps.len() && #[trigger] crew.does(steps[i], from, to, local) && sound(
            i,
            from,
        ) implies local is Ok && sound(i + 1, to) by {
        lemma_led_prefix(route, forward, steps, start, i + 1);
        lemma_led_push(route, forward, steps.take(i), steps[i], start);
        assert(steps.take(i + 1) =~= steps.take(i).push(steps[i]));
        let at = led(route, forward, steps.take(i), start)->0;
        assert(next_place(route, forward, steps[i], at) is Some);
        assert(allowed(steps[i]));
    }
}

/// A crew that keeps the course, and whose checks pass, fails in no piece with overlap of a list that
/// leads somewhere.
pub proof fn lemma_overlap_checked_course_holds<D, E: Failure, C: OverlapCrew<D, E>>(
    crew: C,
    route: Itinerary,
    forward: bool,
    steps: Seq<Step>,
    start: Place,
    allowed: spec_fn(Step) -> bool,
    lies: spec_fn(Place, D) -> bool,
    reached: spec_fn(int, D) -> bool,
)
    requires
        keeps_course_checked::<D, E, C>(crew, route, forward, allowed, lies),
        checks_pass::<D, E, C>(crew, steps, reached),
        reached_inside::<D, E, C>(crew, steps, reached),
        all_allowed(steps, allowed),
        parts_keep_course::<D, E, C>(crew, route, forward, lies),
        led(route, forward, steps, start) is Some,
    ensures
        pieces_hold::<D, FftOverlapError<E>, Overlapped<C>>(
            Overlapped { crew: &crew },
            steps,
            |index: int, state: D|
                on_course(route, forward, steps, start, lies, index, state) && reached(index, state),
        ),
{
    let sound = |index: int, state: D|
        on_course(route, forward, steps, start, lies, index, state) && reached(index, state);
    let pieces = Overlapped { crew: &crew };
    lemma_checked_course_holds::<D, E, C>(
        crew,
        route,
        forward,
        steps,
        start,
        allowed,
        lies,
        reached,
    );
    assert forall|low: int, high: int, from: D, to: D, outcome: Result<(), FftOverlapError<E>>|
        #[trigger]
        Pieces::<D, FftOverlapError<E>>::done(&pieces, steps.subrange(low, high), from, to, outcome)
            && is_piece(steps, low, high) && sound(low, from) implies outcome is Ok && sound(
        high,
        to,
    ) by {
        let piece = steps.subrange(low, high);
        match enclosing_exchange::<D, E, C>(crew, piece) {
            None => {
                let local = choose|local: Result<(), E>| #[trigger]
                    in_turn::<D, E, C>(crew, piece, from, to, local) && outcome == open_outcome(
                        local,
                    );
                lemma_turn_holds::<D, E, C>(crew, steps, low, high, from, to, local, sound);
            },
            Some(index) => {
                let (landed, landing) = choose|landed: D, landing: Result<(), OverlapError<E>>|
                    #[trigger]
                    crew.lands(index, from, landed, landing) && match landing {
                        Err(error) => to == landed && outcome == Err::<(), FftOverlapError<E>>(
                            FftOverlapError::Overlap(error),
                        ),
                        Ok(_) => enclosed_done::<D, E, C>(
                            crew,
                            index,
                            piece.skip(1),
                            landed,
                            to,
                            outcome,
                        ),
                    };
                let at = led(route, forward, steps.take(low), start)->0;
                lemma_led_prefix(route, forward, steps, start, low + 1);
                lemma_led_push(route, forward, steps.take(low), steps[low], start);
                assert(steps.take(low + 1) =~= steps.take(low).push(steps[low]));
                assert(next_place(route, forward, steps[low], at) is Some);
                assert(piece[0] == steps[low]);
                match landing {
                    Ok(done) => {
                        assert(landing == Ok::<(), OverlapError<E>>(()));
                    },
                    Err(_) => {},
                }
                assert(steps[low].work == Work::Exchange(index));
                assert(landing is Ok && sound(low + 1, landed));
                let rest = piece.skip(1);
                assert(rest =~= steps.subrange(low + 1, high));
                let (worked, local, answer) = choose|
                    worked: D,
                    local: Result<(), E>,
                    answer: Result<(), OverlapError<E>>,
                |
                    {
                        &&& #[trigger] in_turn::<D, E, C>(crew, rest, landed, worked, local)
                        &&& #[trigger] crew.settles(index, local is Ok, worked, to, answer)
                        &&& outcome == enclosed_outcome(local, answer)
                    };
                lemma_turn_holds::<D, E, C>(crew, steps, low + 1, high, landed, worked, local, sound);
                assert(crew.settles(index, true, worked, to, answer));
                let there = led(route, forward, steps.take(high), start)->0;
                assert(lies(there, worked));
                match answer {
                    Ok(done) => {
                        assert(answer == Ok::<(), OverlapError<E>>(()));
                    },
                    Err(_) => {},
                }
                assert(reached(high, worked));
            },
        }
    }
}

} // verus!
