//! The order of local kernels and exchanges by which a plan carries values from its source to its
//! destination.

use vstd::prelude::*;

use crate::layout::Direction;

verus! {

/// What kind of plan a schedule belongs to.
#[derive(Clone, Copy, Debug, PartialEq, Eq, Structural)]
pub enum RouteKind {
    /// Real-to-real and Hartley plans.
    RealToReal,
    /// Mixed complex plans.
    MixedComplex,
    /// Real-to-complex plans: nothing is transformed before the boundary.
    HalfComplex,
    /// Mixed real-to-complex plans: real-to-real kernels before the boundary.
    MixedHalfComplex,
}

impl RouteKind {
    /// The values are real before the boundary.
    pub open spec fn spec_has_boundary(self) -> bool {
        self == RouteKind::HalfComplex || self == RouteKind::MixedHalfComplex
    }

    /// Stages before the boundary have kernels.
    pub open spec fn spec_has_prefix(self) -> bool {
        self != RouteKind::HalfComplex
    }

    /// Processes agree on the outcome of each step.
    pub open spec fn spec_agrees(self) -> bool {
        self == RouteKind::MixedComplex || self == RouteKind::MixedHalfComplex
    }

    /// Tells whether the values are real before the boundary.
    pub fn has_boundary(self) -> (yes: bool)
        ensures
            yes == self.spec_has_boundary(),
    {
        match self {
            RouteKind::HalfComplex | RouteKind::MixedHalfComplex => true,
            _ => false,
        }
    }

    /// Tells whether stages before the boundary have kernels.
    pub fn has_prefix(self) -> (yes: bool)
        ensures
            yes == self.spec_has_prefix(),
    {
        match self {
            RouteKind::HalfComplex => false,
            _ => true,
        }
    }

    /// Tells whether processes agree on the outcome of each step.
    pub fn agrees(self) -> (yes: bool)
        ensures
            yes == self.spec_agrees(),
    {
        match self {
            RouteKind::MixedComplex | RouteKind::MixedHalfComplex => true,
            _ => false,
        }
    }
}

/// How a plan is executed.
#[derive(Clone, Copy, Debug, PartialEq, Eq, Structural)]
pub enum Mode {
    /// From a source array to a destination array.
    OutOfPlace,
    /// In one array.
    InPlace,
    /// From source to destination, with kernels inside the receive of an exchange.
    Overlap,
}

/// The stages of a plan. Stage `i` and stage `i + 1` are joined by exchange `i`.
#[derive(Clone, Copy, Debug, PartialEq, Eq, Structural)]
pub struct Itinerary {
    /// What kind of plan it is.
    pub kind: RouteKind,
    /// How many stages there are.
    pub stages: usize,
    /// The stage at which real values become complex.
    pub boundary: usize,
}

impl Itinerary {
    /// The boundary is one of the stages; the first where all values are of one kind. A
    /// real-to-real plan has two stages at least.
    pub open spec fn wf(&self) -> bool {
        &&& self.boundary < self.stages
        &&& self.kind == RouteKind::RealToReal ==> self.stages >= 2
        &&& !self.kind.spec_has_boundary() ==> self.boundary == 0
    }

    /// The last stage.
    pub open spec fn last(&self) -> int {
        self.stages - 1
    }
}

/// Where values lie.
#[derive(Clone, Copy, Debug, PartialEq, Eq, Structural)]
pub enum Slot {
    /// The source array.
    Source,
    /// The destination array.
    Destination,
    /// The array that holds values before the boundary.
    Real,
    /// The array that holds values from the boundary on.
    Complex,
}

/// What a step does.
#[derive(Clone, Copy, Debug, PartialEq, Eq, Structural)]
pub enum Work {
    /// Copies the values.
    Copy,
    /// Applies the kernel of a stage.
    Kernel(usize),
    /// Exchanges values between processes.
    Exchange(usize),
    /// Checks the endpoint planes of the half spectrum.
    Validate,
    /// Clears the imaginary parts of the endpoint planes.
    Clear,
    /// Checks that the values have arrived in the layout behind the execution.
    Arrive,
}

/// One step of a schedule.
#[derive(Clone, Copy, Debug, PartialEq, Eq, Structural)]
pub struct Step {
    /// What it does.
    pub work: Work,
    /// Where it reads.
    pub from: Slot,
    /// Where it writes.
    pub to: Slot,
    /// The stage whose timing it counts toward.
    pub timed: Option<usize>,
    /// Whether processes agree on its outcome before the next step.
    pub agreed: bool,
    /// Whether it belongs to the same piece as the step before it: inside the receive of an
    /// exchange, or with one agreement for both.
    pub joined: bool,
}

/// A step that copies values.
pub open spec fn copy_step(from: Slot, to: Slot, agreed: bool) -> Step {
    Step { work: Work::Copy, from, to, timed: None, agreed, joined: false }
}

/// A step that applies the kernel of a stage.
pub open spec fn kernel_step(stage: int, from: Slot, to: Slot, mode: Mode, agreed: bool, joined: bool) -> Step {
    Step {
        work: Work::Kernel(stage as usize),
        from,
        to,
        timed: if mode == Mode::Overlap {
            None
        } else {
            Some(stage as usize)
        },
        agreed,
        joined,
    }
}

/// A step that exchanges values.
pub open spec fn exchange_step(index: int, at: Slot, mode: Mode, agreed: bool) -> Step {
    Step {
        work: Work::Exchange(index as usize),
        from: at,
        to: at,
        timed: if mode == Mode::Overlap {
            None
        } else {
            Some(index as usize)
        },
        agreed: agreed && mode != Mode::Overlap,
        joined: false,
    }
}

/// A step on the endpoint planes.
pub open spec fn endpoint_step(work: Work, agreed: bool, joined: bool) -> Step {
    Step { work, from: Slot::Complex, to: Slot::Complex, timed: None, agreed, joined }
}

/// A step that checks where the values have arrived.
pub open spec fn arrive_step(at: Slot) -> Step {
    Step { work: Work::Arrive, from: at, to: at, timed: None, agreed: false, joined: false }
}

impl Itinerary {
    /// The first step of a forward execution: the values enter, and stage 0 works on them.
    pub open spec fn entry(&self, mode: Mode) -> Seq<Step> {
        let agreed = self.kind.spec_agrees();
        if self.boundary == 0 {
            seq![
                kernel_step(
                    0,
                    if mode != Mode::InPlace {
                        Slot::Source
                    } else if self.kind.spec_has_boundary() {
                        Slot::Real
                    } else {
                        Slot::Complex
                    },
                    Slot::Complex,
                    mode,
                    agreed || (mode == Mode::InPlace && self.kind.spec_has_boundary()),
                    false,
                ),
            ]
        } else if self.kind.spec_has_prefix() {
            seq![
                kernel_step(
                    0,
                    if mode == Mode::InPlace {
                        Slot::Real
                    } else {
                        Slot::Source
                    },
                    Slot::Real,
                    mode,
                    agreed,
                    false,
                ),
            ]
        } else if mode == Mode::InPlace {
            seq![]
        } else {
            seq![copy_step(Slot::Source, Slot::Real, agreed)]
        }
    }

    /// What a forward execution does once exchange `stage - 1` is done.
    pub open spec fn arrival(&self, mode: Mode, stage: int, eager: Seq<bool>) -> Seq<Step> {
        let within = mode == Mode::Overlap && eager[stage - 1];
        let agreed = self.kind.spec_agrees() && mode != Mode::Overlap;
        if stage < self.boundary {
            if self.kind.spec_has_prefix() {
                seq![kernel_step(stage, Slot::Real, Slot::Real, mode, agreed, within)]
            } else {
                seq![]
            }
        } else if stage == self.boundary {
            seq![
                kernel_step(
                    stage,
                    Slot::Real,
                    Slot::Complex,
                    mode,
                    agreed || mode == Mode::InPlace,
                    within,
                ),
            ]
        } else {
            seq![
                kernel_step(
                    stage,
                    Slot::Complex,
                    if stage == self.last() && mode == Mode::OutOfPlace {
                        Slot::Destination
                    } else {
                        Slot::Complex
                    },
                    mode,
                    agreed,
                    within,
                ),
            ]
        }
    }

    /// The steps of a forward execution up to stage `stage`.
    pub open spec fn forward_leg(&self, mode: Mode, stage: int, eager: Seq<bool>) -> Seq<Step>
        decreases stage,
    {
        if stage <= 0 {
            self.entry(mode)
        } else {
            self.forward_leg(mode, stage - 1, eager).push(
                exchange_step(
                    stage - 1,
                    if stage <= self.boundary {
                        Slot::Real
                    } else {
                        Slot::Complex
                    },
                    mode,
                    self.kind.spec_agrees(),
                ),
            ) + self.arrival(mode, stage, eager)
        }
    }

    /// The steps of a forward execution. Where the last kernel did not write the destination, the
    /// values are copied there. A half-complex plan checks in place where they have arrived.
    pub open spec fn forward_list(&self, mode: Mode, eager: Seq<bool>) -> Seq<Step> {
        let leg = self.forward_leg(mode, self.last(), eager);
        if mode == Mode::Overlap || (mode == Mode::OutOfPlace && self.boundary == self.last()) {
            leg.push(copy_step(Slot::Complex, Slot::Destination, false))
        } else if mode == Mode::InPlace && self.kind == RouteKind::HalfComplex {
            leg.push(arrive_step(Slot::Complex))
        } else {
            leg
        }
    }

    /// The endpoint check and the boundary kernel of a reverse execution.
    pub open spec fn crossing(&self, mode: Mode, checked: bool, agreed: bool, within: bool) -> Seq<Step> {
        let kernel = kernel_step(
            self.boundary as int,
            Slot::Complex,
            if !self.kind.spec_has_boundary() {
                if mode == Mode::OutOfPlace {
                    Slot::Destination
                } else {
                    Slot::Complex
                }
            } else if self.boundary == 0 && mode != Mode::InPlace {
                Slot::Destination
            } else {
                Slot::Real
            },
            mode,
            agreed || (mode == Mode::InPlace && self.kind.spec_has_boundary()),
            within || (checked && mode == Mode::Overlap),
        );
        if checked {
            seq![
                endpoint_step(Work::Validate, false, within),
                endpoint_step(
                    Work::Clear,
                    agreed && mode != Mode::Overlap,
                    within || mode == Mode::Overlap,
                ),
                kernel,
            ]
        } else {
            seq![kernel]
        }
    }

    /// The first steps of a reverse execution: the values enter, and the last stage works on them.
    pub open spec fn reverse_entry(&self, mode: Mode) -> Seq<Step> {
        let agreed = self.kind.spec_agrees();
        let at_boundary = self.boundary == self.last();
        let entered = if mode == Mode::InPlace {
            if at_boundary {
                seq![]
            } else {
                seq![
                    kernel_step(self.last(), Slot::Complex, Slot::Complex, mode, agreed, false),
                ]
            }
        } else if at_boundary && (mode == Mode::OutOfPlace || self.kind.spec_has_boundary()) {
            seq![copy_step(Slot::Source, Slot::Complex, agreed)]
        } else {
            seq![kernel_step(self.last(), Slot::Source, Slot::Complex, mode, agreed, false)]
        };
        if at_boundary && (mode != Mode::Overlap || self.kind.spec_has_boundary()) {
            entered + self.crossing(mode, self.kind.spec_has_boundary(), agreed, false)
        } else {
            entered
        }
    }

    /// The endpoint check comes before the exchange that leads to the boundary.
    pub open spec fn checks_early(&self, mode: Mode, stage: int) -> bool {
        mode == Mode::Overlap && self.kind == RouteKind::HalfComplex && stage == self.boundary
    }

    /// What a reverse execution does once exchange `stage` is undone.
    pub open spec fn return_to(&self, mode: Mode, stage: int, eager: Seq<bool>) -> Seq<Step> {
        let within = mode == Mode::Overlap && eager[stage];
        let agreed = self.kind.spec_agrees() && (mode != Mode::Overlap || (!within
            && self.kind.spec_has_boundary()));
        if stage > self.boundary {
            seq![kernel_step(stage, Slot::Complex, Slot::Complex, mode, agreed, within)]
        } else if stage == self.boundary {
            self.crossing(
                mode,
                self.kind.spec_has_boundary() && !self.checks_early(mode, stage),
                agreed,
                within,
            )
        } else if stage == 0 && mode == Mode::OutOfPlace {
            if self.kind.spec_has_prefix() {
                seq![kernel_step(0, Slot::Real, Slot::Destination, mode, agreed, within)]
            } else {
                seq![copy_step(Slot::Real, Slot::Destination, false)]
            }
        } else if self.kind.spec_has_prefix() {
            seq![kernel_step(stage, Slot::Real, Slot::Real, mode, agreed, within)]
        } else {
            seq![]
        }
    }

    /// The steps of a reverse execution down to stage `stage`.
    pub open spec fn reverse_leg(&self, mode: Mode, stage: int, eager: Seq<bool>) -> Seq<Step>
        decreases self.last() - stage,
    {
        if stage >= self.last() {
            self.reverse_entry(mode)
        } else {
            let above = self.reverse_leg(mode, stage + 1, eager);
            let checked = if self.checks_early(mode, stage) {
                above + seq![
                    endpoint_step(Work::Validate, false, false),
                    endpoint_step(Work::Clear, false, false),
                ]
            } else {
                above
            };
            checked.push(
                exchange_step(
                    stage,
                    if stage < self.boundary {
                        Slot::Real
                    } else {
                        Slot::Complex
                    },
                    mode,
                    self.kind.spec_agrees(),
                ),
            ) + self.return_to(mode, stage, eager)
        }
    }

    /// The steps of a reverse execution. Where the last kernel did not write the destination, the
    /// values are copied there. A half-complex plan checks in place where they have arrived.
    pub open spec fn reverse_list(&self, mode: Mode, eager: Seq<bool>) -> Seq<Step> {
        let leg = self.reverse_leg(mode, 0, eager);
        if mode == Mode::Overlap && !self.kind.spec_has_boundary() {
            leg.push(copy_step(Slot::Complex, Slot::Destination, false))
        } else if mode == Mode::Overlap && self.boundary > 0 {
            leg.push(copy_step(Slot::Real, Slot::Destination, false))
        } else if mode == Mode::InPlace && self.kind == RouteKind::HalfComplex {
            leg.push(arrive_step(Slot::Real))
        } else {
            leg
        }
    }
}

fn new_copy(from: Slot, to: Slot, agreed: bool) -> (step: Step)
    ensures
        step == copy_step(from, to, agreed),
{
    Step { work: Work::Copy, from, to, timed: None, agreed, joined: false }
}

fn new_arrival(at: Slot) -> (step: Step)
    ensures
        step == arrive_step(at),
{
    Step { work: Work::Arrive, from: at, to: at, timed: None, agreed: false, joined: false }
}

fn new_kernel(stage: usize, from: Slot, to: Slot, mode: Mode, agreed: bool, joined: bool) -> (step:
    Step)
    ensures
        step == kernel_step(stage as int, from, to, mode, agreed, joined),
{
    Step {
        work: Work::Kernel(stage),
        from,
        to,
        timed: if mode == Mode::Overlap {
            None
        } else {
            Some(stage)
        },
        agreed,
        joined,
    }
}

fn new_exchange(index: usize, at: Slot, mode: Mode, agreed: bool) -> (step: Step)
    ensures
        step == exchange_step(index as int, at, mode, agreed),
{
    Step {
        work: Work::Exchange(index),
        from: at,
        to: at,
        timed: if mode == Mode::Overlap {
            None
        } else {
            Some(index)
        },
        agreed: agreed && mode != Mode::Overlap,
        joined: false,
    }
}

fn new_endpoint(work: Work, agreed: bool, joined: bool) -> (step: Step)
    ensures
        step == endpoint_step(work, agreed, joined),
{
    Step { work, from: Slot::Complex, to: Slot::Complex, timed: None, agreed, joined }
}

impl Itinerary {
    /// The exchanges of the plan are described.
    pub open spec fn described(&self, eager: Seq<bool>) -> bool {
        eager.len() == self.last()
    }

    fn push_entry(&self, mode: Mode, steps: &mut Vec<Step>)
        ensures
            final(steps)@ == old(steps)@ + self.entry(mode),
    {
        let agreed: bool = self.kind.agrees();
        if self.boundary == 0 {
            let from: Slot = if mode != Mode::InPlace {
                Slot::Source
            } else if self.kind.has_boundary() {
                Slot::Real
            } else {
                Slot::Complex
            };
            steps.push(
                new_kernel(
                    0,
                    from,
                    Slot::Complex,
                    mode,
                    agreed || (mode == Mode::InPlace && self.kind.has_boundary()),
                    false,
                ),
            );
        } else if self.kind.has_prefix() {
            let from: Slot = if mode == Mode::InPlace {
                Slot::Real
            } else {
                Slot::Source
            };
            steps.push(new_kernel(0, from, Slot::Real, mode, agreed, false));
        } else if mode != Mode::InPlace {
            steps.push(new_copy(Slot::Source, Slot::Real, agreed));
        }
        assert(steps@ =~= old(steps)@ + self.entry(mode));
    }

    fn push_arrival(&self, mode: Mode, stage: usize, eager: &Vec<bool>, steps: &mut Vec<Step>)
        requires
            self.wf(),
            self.described(eager@),
            0 < stage < self.stages,
        ensures
            final(steps)@ == old(steps)@ + self.arrival(mode, stage as int, eager@),
    {
        let within: bool = mode == Mode::Overlap && eager[stage - 1];
        let agreed: bool = self.kind.agrees() && mode != Mode::Overlap;
        if stage < self.boundary {
            if self.kind.has_prefix() {
                steps.push(new_kernel(stage, Slot::Real, Slot::Real, mode, agreed, within));
            }
        } else if stage == self.boundary {
            steps.push(
                new_kernel(
                    stage,
                    Slot::Real,
                    Slot::Complex,
                    mode,
                    agreed || mode == Mode::InPlace,
                    within,
                ),
            );
        } else {
            let to: Slot = if stage == self.stages - 1 && mode == Mode::OutOfPlace {
                Slot::Destination
            } else {
                Slot::Complex
            };
            steps.push(new_kernel(stage, Slot::Complex, to, mode, agreed, within));
        }
        assert(steps@ =~= old(steps)@ + self.arrival(mode, stage as int, eager@));
    }

    /// Lists the steps of a forward execution. `eager` tells of each exchange whether work can
    /// run inside its receive.
    pub fn forward_steps(&self, mode: Mode, eager: &Vec<bool>) -> (steps: Vec<Step>)
        requires
            self.wf(),
            self.described(eager@),
        ensures
            steps@ == self.forward_list(mode, eager@),
    {
        let mut steps: Vec<Step> = Vec::new();
        self.push_entry(mode, &mut steps);
        let mut stage: usize = 0;
        while stage + 1 < self.stages
            invariant
                self.wf(),
                self.described(eager@),
                stage < self.stages,
                steps@ == self.forward_leg(mode, stage as int, eager@),
            decreases self.stages - stage,
        {
            let at: Slot = if stage + 1 <= self.boundary {
                Slot::Real
            } else {
                Slot::Complex
            };
            steps.push(new_exchange(stage, at, mode, self.kind.agrees()));
            stage += 1;
            self.push_arrival(mode, stage, eager, &mut steps);
        }
        if mode == Mode::Overlap || (mode == Mode::OutOfPlace && self.boundary == self.stages - 1) {
            steps.push(new_copy(Slot::Complex, Slot::Destination, false));
        } else if mode == Mode::InPlace && self.kind == RouteKind::HalfComplex {
            steps.push(new_arrival(Slot::Complex));
        }
        steps
    }

    fn push_crossing(&self, mode: Mode, checked: bool, agreed: bool, within: bool, steps: &mut Vec<Step>)
        requires
            self.wf(),
        ensures
            final(steps)@ == old(steps)@ + self.crossing(mode, checked, agreed, within),
    {
        if checked {
            steps.push(new_endpoint(Work::Validate, false, within));
            steps.push(
                new_endpoint(
                    Work::Clear,
                    agreed && mode != Mode::Overlap,
                    within || mode == Mode::Overlap,
                ),
            );
        }
        let to: Slot = if !self.kind.has_boundary() {
            if mode == Mode::OutOfPlace {
                Slot::Destination
            } else {
                Slot::Complex
            }
        } else if self.boundary == 0 && mode != Mode::InPlace {
            Slot::Destination
        } else {
            Slot::Real
        };
        steps.push(
            new_kernel(
                self.boundary,
                Slot::Complex,
                to,
                mode,
                agreed || (mode == Mode::InPlace && self.kind.has_boundary()),
                within || (checked && mode == Mode::Overlap),
            ),
        );
        assert(steps@ =~= old(steps)@ + self.crossing(mode, checked, agreed, within));
    }

    fn push_reverse_entry(&self, mode: Mode, steps: &mut Vec<Step>)
        requires
            self.wf(),
            old(steps)@.len() == 0,
        ensures
            final(steps)@ == self.reverse_entry(mode),
    {
        let agreed: bool = self.kind.agrees();
        let last: usize = self.stages - 1;
        let at_boundary: bool = self.boundary == last;
        if mode == Mode::InPlace {
            if !at_boundary {
                steps.push(
                    new_kernel(last, Slot::Complex, Slot::Complex, mode, agreed, false),
                );
            }
        } else if at_boundary && (mode == Mode::OutOfPlace || self.kind.has_boundary()) {
            steps.push(new_copy(Slot::Source, Slot::Complex, agreed));
        } else {
            steps.push(new_kernel(last, Slot::Source, Slot::Complex, mode, agreed, false));
        }
        if at_boundary && (mode != Mode::Overlap || self.kind.has_boundary()) {
            self.push_crossing(mode, self.kind.has_boundary(), agreed, false, steps);
        }
        assert(steps@ =~= self.reverse_entry(mode));
    }

    fn push_return(&self, mode: Mode, stage: usize, eager: &Vec<bool>, steps: &mut Vec<Step>)
        requires
            self.wf(),
            self.described(eager@),
            stage + 1 < self.stages,
        ensures
            final(steps)@ == old(steps)@ + self.return_to(mode, stage as int, eager@),
    {
        let within: bool = mode == Mode::Overlap && eager[stage];
        let agreed: bool = self.kind.agrees() && (mode != Mode::Overlap || (!within
            && self.kind.has_boundary()));
        if stage > self.boundary {
            steps.push(new_kernel(stage, Slot::Complex, Slot::Complex, mode, agreed, within));
        } else if stage == self.boundary {
            let early: bool = mode == Mode::Overlap && self.kind == RouteKind::HalfComplex;
            self.push_crossing(mode, self.kind.has_boundary() && !early, agreed, within, steps);
        } else if stage == 0 && mode == Mode::OutOfPlace {
            if self.kind.has_prefix() {
                steps.push(new_kernel(0, Slot::Real, Slot::Destination, mode, agreed, within));
            } else {
                steps.push(new_copy(Slot::Real, Slot::Destination, false));
            }
        } else if self.kind.has_prefix() {
            steps.push(new_kernel(stage, Slot::Real, Slot::Real, mode, agreed, within));
        }
        assert(steps@ =~= old(steps)@ + self.return_to(mode, stage as int, eager@));
    }

    /// Lists the steps of a reverse execution. `eager` tells of each exchange whether work can
    /// run inside its receive.
    pub fn reverse_steps(&self, mode: Mode, eager: &Vec<bool>) -> (steps: Vec<Step>)
        requires
            self.wf(),
            self.described(eager@),
        ensures
            steps@ == self.reverse_list(mode, eager@),
    {
        let mut steps: Vec<Step> = Vec::new();
        self.push_reverse_entry(mode, &mut steps);
        let mut stage: usize = self.stages - 1;
        while stage > 0
            invariant
                self.wf(),
                self.described(eager@),
                stage < self.stages,
                steps@ == self.reverse_leg(mode, stage as int, eager@),
            decreases stage,
        {
            stage -= 1;
            let ghost above = steps@;
            if mode == Mode::Overlap && self.kind == RouteKind::HalfComplex && stage
                == self.boundary {
                steps.push(new_endpoint(Work::Validate, false, false));
                steps.push(new_endpoint(Work::Clear, false, false));
                assert(steps@ =~= above + seq![
                    endpoint_step(Work::Validate, false, false),
                    endpoint_step(Work::Clear, false, false),
                ]);
            }
            let at: Slot = if stage < self.boundary {
                Slot::Real
            } else {
                Slot::Complex
            };
            steps.push(new_exchange(stage, at, mode, self.kind.agrees()));
            self.push_return(mode, stage, eager, &mut steps);
        }
        if mode == Mode::Overlap && !self.kind.has_boundary() {
            steps.push(new_copy(Slot::Complex, Slot::Destination, false));
        } else if mode == Mode::Overlap && self.boundary > 0 {
            steps.push(new_copy(Slot::Real, Slot::Destination, false));
        } else if mode == Mode::InPlace && self.kind == RouteKind::HalfComplex {
            steps.push(new_arrival(Slot::Real));
        }
        steps
    }
}

impl Itinerary {
    /// The steps of an execution.
    pub open spec fn list(&self, direction: Direction, mode: Mode, eager: Seq<bool>) -> Seq<Step> {
        if direction == Direction::Forward {
            self.forward_list(mode, eager)
        } else {
            self.reverse_list(mode, eager)
        }
    }

    /// Lists the steps of an execution.
    pub fn steps(&self, direction: Direction, mode: Mode, eager: &Vec<bool>) -> (steps: Vec<Step>)
        requires
            self.wf(),
            self.described(eager@),
        ensures
            steps@ == self.list(direction, mode, eager@),
    {
        match direction {
            Direction::Forward => self.forward_steps(mode, eager),
            _ => self.reverse_steps(mode, eager),
        }
    }
}

} // verus!
