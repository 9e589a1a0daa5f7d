//! An execution takes the values through every kernel and every exchange of the plan.

use vstd::prelude::*;

use crate::journey::after_steps;
use crate::layout::Direction;
use crate::mixed_c2c::MixedC2cCore;
use crate::mixed_r2c::MixedR2cCore;
use crate::r2c::TransformPlanCore;
use crate::r2r::R2rCore;
use crate::schedule::endpoint_step;
use crate::schedule::exchange_step;
use crate::schedule::Itinerary;
use crate::schedule::Mode;
use crate::schedule::RouteKind;
use crate::schedule::Slot;
use crate::schedule::Step;
use crate::schedule::Work;

verus! {

/// The works of a plan in order: each kernel, and between two kernels the exchange that joins
/// their stages. A real-to-complex plan has no kernel before the boundary, only the exchanges
/// that lead there.
pub open spec fn visits(kind: RouteKind, stages: int, boundary: int, works: Seq<Work>) -> bool {
    if kind == RouteKind::HalfComplex {
        &&& works.len() == boundary + 2 * (stages - boundary) - 1
        &&& forall|i: int| 0 <= i < boundary ==> #[trigger] works[i] == Work::Exchange(i as usize)
        &&& forall|i: int|
            0 <= i < stages - boundary ==> works[#[trigger] (boundary + 2 * i)] == Work::Kernel(
                (boundary + i) as usize,
            )
        &&& forall|i: int|
            0 <= i < stages - boundary - 1 ==> works[#[trigger] (boundary + 2 * i + 1)]
                == Work::Exchange((boundary + i) as usize)
    } else {
        &&& works.len() == 2 * stages - 1
        &&& forall|i: int| 0 <= i < stages ==> works[#[trigger] (2 * i)] == Work::Kernel(i as usize)
        &&& forall|i: int|
            0 <= i < stages - 1 ==> works[#[trigger] (2 * i + 1)] == Work::Exchange(i as usize)
    }
}

proof fn lemma_journey_visits(route: Itinerary, stage: int)
    requires
        route.wf(),
        0 <= stage <= route.last(),
        route.kind == RouteKind::HalfComplex ==> stage >= route.boundary,
    ensures
        visits(route.kind, stage + 1, route.boundary as int, route.journey(stage)),
    decreases stage,
{
    let works = route.journey(stage);
    let boundary = route.boundary as int;
    reveal_with_fuel(Itinerary::journey, 2);
    if stage == 0 {
        assert(works =~= seq![Work::Kernel(0usize)]);
    } else if route.kind == RouteKind::HalfComplex && stage == boundary {
        lemma_approach(route, stage - 1);
        let front = route.journey(stage - 1);
        assert(works =~= front.push(Work::Exchange((stage - 1) as usize)).push(
            Work::Kernel(stage as usize),
        ));
    } else {
        lemma_journey_visits(route, stage - 1);
        let front = route.journey(stage - 1);
        assert(works =~= front.push(Work::Exchange((stage - 1) as usize)).push(
            Work::Kernel(stage as usize),
        ));
        if route.kind == RouteKind::HalfComplex {
            assert forall|i: int| 0 <= i < stage + 1 - boundary implies works[#[trigger] (boundary + 2 * i)]
                == Work::Kernel((boundary + i) as usize) by {
                if i < stage - boundary {
                    assert(front[boundary + 2 * i] == Work::Kernel((boundary + i) as usize));
                }
            }
            assert forall|i: int| 0 <= i < stage - boundary implies works[#[trigger] (boundary + 2 * i + 1)]
                == Work::Exchange((boundary + i) as usize) by {
                if i < stage - boundary - 1 {
                    assert(front[boundary + 2 * i + 1] == Work::Exchange((boundary + i) as usize));
                }
            }
            assert forall|i: int| 0 <= i < boundary implies #[trigger] works[i] == Work::Exchange(i as usize) by {
                assert(front[i] == Work::Exchange(i as usize));
            }
        } else {
            assert forall|i: int| 0 <= i < stage + 1 implies works[#[trigger] (2 * i)] == Work::Kernel(i as usize) by {
                if i < stage {
                    assert(front[2 * i] == Work::Kernel(i as usize));
                }
            }
            assert forall|i: int| 0 <= i < stage implies works[#[trigger] (2 * i + 1)] == Work::Exchange(i as usize) by {
                if i < stage - 1 {
                    assert(front[2 * i + 1] == Work::Exchange(i as usize));
                }
            }
        }
    }
}

proof fn lemma_approach(route: Itinerary, stage: int)
    requires
        route.wf(),
        route.kind == RouteKind::HalfComplex,
        0 <= stage < route.boundary,
    ensures
        route.journey(stage).len() == stage,
        forall|i: int| 0 <= i < stage ==> #[trigger] route.journey(stage)[i] == Work::Exchange(i as usize),
    decreases stage,
{
    reveal_with_fuel(Itinerary::journey, 2);
    if stage == 0 {
        assert(route.journey(0) =~= Seq::<Work>::empty());
    } else {
        lemma_approach(route, stage - 1);
        assert(route.journey(stage) =~= route.journey(stage - 1).push(Work::Exchange((stage - 1) as usize)));
    }
}

/// A forward execution, however it is executed, takes the values from where they start to where
/// they belong through the kernel of every stage and every exchange between, once each and in
/// order.
pub proof fn law_forward_visits_all(route: Itinerary, mode: Mode, eager: Seq<bool>)
    requires
        route.wf(),
    ensures
        ({
            let start = match mode {
                Mode::InPlace => if route.kind == RouteKind::HalfComplex || route.kind
                    == RouteKind::MixedHalfComplex {
                    Slot::Real
                } else {
                    Slot::Complex
                },
                _ => Slot::Source,
            };
            let end = match mode {
                Mode::InPlace => Slot::Complex,
                _ => Slot::Destination,
            };
            &&& after_steps(
                route.list(Direction::Forward, mode, eager),
                map![start => Seq::<Work>::empty()],
            ) matches Some(after)
            &&& after.contains_key(end)
            &&& visits(route.kind, route.stages as int, route.boundary as int, after[end])
        }),
{
    route.law_forward_journey(mode, eager);
    lemma_journey_visits(route, route.last());
}

/// An execution home, however it is executed, takes the values from where they start to where
/// they belong through the kernel of every stage and every exchange between, once each, in the
/// reverse of the order on the way there.
pub proof fn law_home_visits_all(route: Itinerary, direction: Direction, mode: Mode, eager: Seq<bool>)
    requires
        route.wf(),
        direction != Direction::Forward,
    ensures
        ({
            let start = match mode {
                Mode::InPlace => Slot::Complex,
                _ => Slot::Source,
            };
            let end = match mode {
                Mode::InPlace => if route.kind == RouteKind::HalfComplex || route.kind
                    == RouteKind::MixedHalfComplex {
                    Slot::Real
                } else {
                    Slot::Complex
                },
                _ => Slot::Destination,
            };
            &&& after_steps(
                route.list(direction, mode, eager),
                map![start => Seq::<Work>::empty()],
            ) matches Some(after)
            &&& after.contains_key(end)
            &&& visits(route.kind, route.stages as int, route.boundary as int, after[end].reverse())
        }),
{
    route.law_reverse_journey(mode, eager);
    route.law_return_mirrors_journey();
    lemma_journey_visits(route, route.last());
    let works = route.journey(route.last());
    assert(works.reverse().reverse() =~= works);
}

/// The plans go over all their stages, each by the rules of its kind.
pub proof fn law_plans_go_over_their_stages<const N: usize, const M: usize>(
    r2r: R2rCore<N, M>,
    mixed_c2c: MixedC2cCore<N, M>,
    r2c: TransformPlanCore<N, M>,
    mixed_r2c: MixedR2cCore<N, M>,
)
    ensures
        r2r.itinerary() == (Itinerary {
            kind: RouteKind::RealToReal,
            stages: r2r.stages.len(),
            boundary: 0,
        }),
        mixed_c2c.itinerary() == (Itinerary {
            kind: RouteKind::MixedComplex,
            stages: mixed_c2c.stages.len(),
            boundary: 0,
        }),
        r2c.itinerary() == (Itinerary {
            kind: RouteKind::HalfComplex,
            stages: r2c.stages.len(),
            boundary: r2c.boundary,
        }),
        mixed_r2c.itinerary() == (Itinerary {
            kind: RouteKind::MixedHalfComplex,
            stages: mixed_r2c.stages.len(),
            boundary: mixed_r2c.boundary,
        }),
{
}

/// Kernels and exchanges count toward the timing of their own stage, copies and checks toward none;
/// and on mixed plans the processes agree after each kernel and each exchange.
pub open spec fn told(route: Itinerary, mode: Mode, step: Step) -> bool {
    let mixed = route.kind == RouteKind::MixedComplex || route.kind == RouteKind::MixedHalfComplex;
    match step.work {
        Work::Kernel(stage) => {
            &&& step.timed == if mode == Mode::Overlap {
                None::<usize>
            } else {
                Some(stage)
            }
            &&& mode != Mode::Overlap && mixed ==> step.agreed
            &&& mode == Mode::InPlace && route.kind == RouteKind::HalfComplex ==> (step.agreed <==> stage
                == route.boundary)
            &&& mode == Mode::OutOfPlace && !mixed ==> !step.agreed
        },
        Work::Exchange(index) => {
            &&& step.timed == if mode == Mode::Overlap {
                None::<usize>
            } else {
                Some(index)
            }
            &&& step.agreed <==> mixed && mode != Mode::Overlap
            &&& step.to == step.from
        },
        _ => step.timed is None,
    }
}

proof fn lemma_forward_told(route: Itinerary, mode: Mode, stage: int, eager: Seq<bool>)
    requires
        route.wf(),
        0 <= stage <= route.last(),
    ensures
        forall|i: int|
            0 <= i < route.forward_leg(mode, stage, eager).len() ==> told(
                route,
                mode,
                #[trigger] route.forward_leg(mode, stage, eager)[i],
            ),
    decreases stage,
{
    let leg = route.forward_leg(mode, stage, eager);
    if stage > 0 {
        lemma_forward_told(route, mode, stage - 1, eager);
        let front = route.forward_leg(mode, stage - 1, eager);
        let step = exchange_step(
            stage - 1,
            if stage <= route.boundary {
                Slot::Real
            } else {
                Slot::Complex
            },
            mode,
            route.kind.spec_agrees(),
        );
        let rest = route.arrival(mode, stage, eager);
        assert(leg == front.push(step) + rest);
        assert(told(route, mode, step));
        lemma_arrival_told(route, mode, stage, eager);
        assert forall|i: int| 0 <= i < leg.len() implies told(route, mode, #[trigger] leg[i]) by {
            if i < front.len() {
                assert(leg[i] == front[i]);
            } else if i > front.len() {
                assert(leg[i] == rest[i - front.len() - 1]);
            }
        }
    } else {
        assert(leg == route.entry(mode));
    }
}

proof fn lemma_arrival_told(route: Itinerary, mode: Mode, stage: int, eager: Seq<bool>)
    requires
        route.wf(),
        0 < stage <= route.last(),
    ensures
        forall|i: int|
            0 <= i < route.arrival(mode, stage, eager).len() ==> told(
                route,
                mode,
                #[trigger] route.arrival(mode, stage, eager)[i],
            ),
{
}

proof fn lemma_return_told(route: Itinerary, mode: Mode, stage: int, eager: Seq<bool>)
    requires
        route.wf(),
        0 <= stage < route.last(),
    ensures
        forall|i: int|
            0 <= i < route.return_to(mode, stage, eager).len() ==> told(
                route,
                mode,
                #[trigger] route.return_to(mode, stage, eager)[i],
            ),
{
}

proof fn lemma_home_told(route: Itinerary, mode: Mode, stage: int, eager: Seq<bool>)
    requires
        route.wf(),
        0 <= stage <= route.last(),
    ensures
        forall|i: int|
            0 <= i < route.reverse_leg(mode, stage, eager).len() ==> told(
                route,
                mode,
                #[trigger] route.reverse_leg(mode, stage, eager)[i],
            ),
    decreases route.last() - stage,
{
    let leg = route.reverse_leg(mode, stage, eager);
    if stage < route.last() {
        lemma_home_told(route, mode, stage + 1, eager);
        lemma_return_told(route, mode, stage, eager);
        let above = route.reverse_leg(mode, stage + 1, eager);
        let checks = if route.checks_early(mode, stage) {
            seq![
                endpoint_step(Work::Validate, false, false),
                endpoint_step(Work::Clear, false, false),
            ]
        } else {
            Seq::<Step>::empty()
        };
        let step = exchange_step(
            stage,
            if stage < route.boundary {
                Slot::Real
            } else {
                Slot::Complex
            },
            mode,
            route.kind.spec_agrees(),
        );
        let rest = route.return_to(mode, stage, eager);
        assert(leg =~= (above + checks).push(step) + rest);
        assert(told(route, mode, step));
        assert forall|i: int| 0 <= i < leg.len() implies told(route, mode, #[trigger] leg[i]) by {
            if i < above.len() {
                assert(leg[i] == above[i]);
            } else if i < above.len() + checks.len() {
                assert(leg[i] == checks[i - above.len()]);
            } else if i > above.len() + checks.len() {
                assert(leg[i] == rest[i - above.len() - checks.len() - 1]);
            }
        }
    } else {
        assert(leg == route.reverse_entry(mode));
    }
}

/// What the steps of an execution tell: whose timing they count toward, and where the processes
/// agree.
pub proof fn law_steps_told(route: Itinerary, direction: Direction, mode: Mode, eager: Seq<bool>)
    requires
        route.wf(),
    ensures
        forall|i: int|
            0 <= i < route.list(direction, mode, eager).len() ==> told(
                route,
                mode,
                #[trigger] route.list(direction, mode, eager)[i],
            ),
{
    lemma_forward_told(route, mode, route.last(), eager);
    lemma_home_told(route, mode, 0, eager);
}

} // verus!
