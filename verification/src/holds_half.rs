//! What makes the steps of an execution succeed that turns real values into complex ones, or back.

use vstd::prelude::*;

use crate::carrier::carries;
use crate::carrier::carries_split;
use crate::carrier::Load;
use crate::course::next_place;
use crate::course::stays_outside;
use crate::course::Place;
use crate::error::Failure;
use crate::error::FftError;
use crate::error::OverlapError;
use crate::half_carrier::half_carried;
use crate::half_carrier::half_part_done;
use crate::half_carrier::HalfLoad;
use crate::holds::in_order;
use crate::holds::leads_on;
use crate::holds::lemma_applied_holds;
use crate::holds::lemma_carried_holds;
use crate::holds::lemma_copy_holds;
use crate::holds::lemma_departed_holds;
use crate::holds::lemma_entered_holds;
use crate::holds::lemma_part_lands;
use crate::holds::lemma_part_settles;
use crate::holds::parts_lead_on;
use crate::holds::registered;
use crate::holds::stands_at;
use crate::holds::station_holds;
use crate::layout::Direction;
use crate::layout::Pencil;
use crate::perform::forward_done;
use crate::perform::reverse_done;
use crate::perform::HalfEntries;
use crate::perform::HalfLens;
use crate::registry::inputs_of;
use crate::registry::outputs_of;
use crate::registry::stages_wf;
use crate::registry::Stage;
use crate::round_shared::all_wf;
use crate::scalar::Complex;
use crate::schedule::Itinerary;
use crate::schedule::Slot;
use crate::schedule::Step;
use crate::schedule::Work;
use crate::station::CopyStation;
use crate::station::LocalStation;
use crate::station::Station;
use crate::transition::Passage;
use crate::transition::Transition;

verus! {

/// Only the boundary changes the layout.
pub open spec fn boundary_resizes<const N: usize, const M: usize>(
    stages: Seq<Stage<N, M>>,
    boundary: int,
) -> bool {
    forall|i: int|
        0 <= i < stages.len() && i != boundary ==> (#[trigger] stages[i]).input == stages[i].output
}

/// Elements of this process in front of a stage.
pub open spec fn real_elements<const N: usize, const M: usize>(
    stages: Seq<Stage<N, M>>,
    extra: int,
    stage: int,
) -> int {
    stages[stage].input.local_len * extra
}

/// Elements of this process behind a stage.
pub open spec fn complex_elements<const N: usize, const M: usize>(
    stages: Seq<Stage<N, M>>,
    extra: int,
    stage: int,
) -> int {
    stages[stage].output.local_len * extra
}

/// The layout in which real values enter, and that in which complex ones do.
pub open spec fn half_entries<const N: usize, const M: usize>(
    stages: Seq<Stage<N, M>>,
    boundary: int,
    forward: bool,
) -> (Pencil<N, M>, Pencil<N, M>) {
    if forward {
        (stages[0].output, stages[boundary].output)
    } else {
        (stages[boundary].input, stages.last().output)
    }
}

/// Where the values of an execution with a boundary are, and that all lengths are as they should.
pub open spec fn half_lies<R, const N: usize, const M: usize>(
    stages: Seq<Stage<N, M>>,
    boundary: int,
    extra: int,
    forward: bool,
    at: Place,
    source_len: int,
    load: HalfLoad<R, N, M>,
    destination_len: int,
) -> bool {
    let entries = half_entries(stages, boundary, forward);
    let arrays = load.arrays();
    let first = real_elements(stages, extra, 0);
    let last = complex_elements(stages, extra, stages.len() - 1);
    &&& 0 <= at.stage < stages.len()
    &&& in_order(arrays.complexes, extra, entries.1)
    &&& boundary > 0 ==> load.real_buffers is Some && arrays.reals is Some && in_order(
        arrays.reals->0,
        extra,
        entries.0,
    )
    &&& registered(arrays.complexes, outputs_of(stages), boundary, stages.len() as int)
    &&& boundary > 0 ==> registered(arrays.reals->0, inputs_of(stages), 0, boundary + 1)
    &&& source_len == if forward {
        first
    } else {
        last
    }
    &&& at.slot != Slot::Destination ==> destination_len == if forward {
        last
    } else {
        first
    }
    &&& at.slot == Slot::Real ==> boundary > 0 && at.stage <= boundary && stands_at(
        arrays.reals->0,
        real_elements(stages, extra, at.stage),
    )
    &&& at.slot == Slot::Complex ==> at.stage >= boundary && stands_at(
        arrays.complexes,
        complex_elements(stages, extra, at.stage),
    )
}

/// The stages of an execution do not fail on their elements: the real ones in front of the boundary,
/// the boundary, and the complex ones behind it.
pub open spec fn stations_hold<R, X, Y, E, SR: Station<R, R, E>, SX: Station<X, Y, E>, SC: Station<Complex<R>, Complex<R>, E>, const N: usize, const M: usize>(
    stations: (SR, SX, SC),
    stages: Seq<Stage<N, M>>,
    boundary: int,
    extra: int,
    forward: bool,
    stage: int,
    lens: HalfLens,
) -> bool {
    let reals_len = real_elements(stages, extra, stage);
    let complex = complex_elements(stages, extra, stage);
    &&& stage < boundary ==> station_holds::<R, R, E, SR>(stations.0, reals_len, reals_len, lens.reals)
    &&& stage == boundary ==> station_holds::<X, Y, E, SX>(
        stations.1,
        if forward {
            reals_len
        } else {
            complex
        },
        if forward {
            complex
        } else {
            reals_len
        },
        lens.crossing,
    )
    &&& stage > boundary ==> station_holds::<Complex<R>, Complex<R>, E, SC>(
        stations.2,
        complex,
        complex,
        lens.complexes,
    )
}

/// A local step of a forward execution that does not fail leads on.
pub proof fn lemma_forward_holds<R: Copy, E: Failure, SR: LocalStation<R, E>, SX: Station<R, Complex<R>, E>, SC: LocalStation<Complex<R>, E>, const N: usize, const M: usize>(
    route: Itinerary,
    stations: (SR, SX, SC),
    step: Step,
    at: Place,
    stages: Seq<Stage<N, M>>,
    extra: int,
    source: Seq<R>,
    before: HalfLoad<R, N, M>,
    after: HalfLoad<R, N, M>,
    destination: (Seq<Complex<R>>, Seq<Complex<R>>),
    lens: HalfLens,
    outcome: Result<(), E>,
)
    requires
        route.wf(),
        route.kind.spec_has_boundary(),
        stages.len() == route.stages,
        stages_wf(stages),
        boundary_resizes(stages, route.boundary as int),
        stays_outside(route, step),
        next_place(route, true, step, at) is Some,
        step.work is Copy || step.work is Kernel,
        half_lies(
            stages,
            route.boundary as int,
            extra,
            true,
            at,
            source.len() as int,
            before,
            destination.0.len() as int,
        ),
        after.real_buffers == before.real_buffers,
        forward_done::<R, E, SR, SX, SC, N, M>(
            stations,
            step,
            HalfEntries {
                source: stages[0].output,
                crossing: stages[route.boundary as int].output,
            },
            source,
            before.arrays(),
            after.arrays(),
            destination,
            lens,
            outcome,
        ),
        step.work is Kernel ==> stations_hold::<R, R, Complex<R>, E, SR, SX, SC, N, M>(
            stations,
            stages,
            route.boundary as int,
            extra,
            true,
            at.stage,
            lens,
        ),
    ensures
        outcome is Ok,
        half_lies(
            stages,
            route.boundary as int,
            extra,
            true,
            next_place(route, true, step, at)->0,
            source.len() as int,
            after,
            destination.1.len() as int,
        ),
{
    let boundary = route.boundary as int;
    let crossing = stages[boundary].output;
    let reals_len = real_elements(stages, extra, at.stage);
    let complex = complex_elements(stages, extra, at.stage);
    lemma_copy_holds::<R, E>(reals_len, lens.reals);
    lemma_copy_holds::<Complex<R>, E>(complex, lens.complexes);
    assert(stages[0].wf() && stages[boundary].wf());
    match (step.work, step.from, step.to) {
        (Work::Copy, Slot::Source, Slot::Real) => {
            assert(stages[0].input == stages[0].output);
            lemma_entered_holds::<R, R, E, CopyStation, N, M>(
                CopyStation {  },
                source,
                before.reals->0,
                after.reals->0,
                stages[0].output,
                lens.reals,
                outcome,
                extra,
            );
        },
        (Work::Kernel(_), Slot::Source, Slot::Real) => {
            assert(stages[0].input == stages[0].output);
            lemma_entered_holds::<R, R, E, SR, N, M>(
                stations.0,
                source,
                before.reals->0,
                after.reals->0,
                stages[0].output,
                lens.reals,
                outcome,
                extra,
            );
        },
        (Work::Kernel(_), Slot::Real, Slot::Real) => {
            lemma_applied_holds::<R, E, SR, N, M>(
                stations.0,
                before.reals->0,
                after.reals->0,
                lens.reals,
                outcome,
                extra,
                stages[0].output,
                reals_len,
            );
        },
        (Work::Kernel(_), Slot::Source, Slot::Complex) => {
            lemma_entered_holds::<R, Complex<R>, E, SX, N, M>(
                stations.1,
                source,
                before.complexes,
                after.complexes,
                crossing,
                lens.crossing,
                outcome,
                extra,
            );
        },
        (Work::Kernel(_), Slot::Real, Slot::Complex) => {
            let reals = before.reals->0;
            reals.lemma_active_fits();
            lemma_entered_holds::<R, Complex<R>, E, SX, N, M>(
                stations.1,
                reals.storage@.subrange(0, reals.active_len()),
                before.complexes,
                after.complexes,
                crossing,
                lens.crossing,
                outcome,
                extra,
            );
        },
        (Work::Kernel(_), Slot::Complex, Slot::Complex) => {
            lemma_applied_holds::<Complex<R>, E, SC, N, M>(
                stations.2,
                before.complexes,
                after.complexes,
                lens.complexes,
                outcome,
                extra,
                crossing,
                complex,
            );
        },
        (Work::Kernel(_), Slot::Complex, Slot::Destination) => {
            lemma_departed_holds::<Complex<R>, Complex<R>, E, SC, N, M>(
                stations.2,
                before.complexes,
                destination.0,
                destination.1,
                lens.complexes,
                outcome,
                complex,
            );
        },
        (Work::Copy, Slot::Complex, Slot::Destination) => {
            lemma_departed_holds::<Complex<R>, Complex<R>, E, CopyStation, N, M>(
                CopyStation {  },
                before.complexes,
                destination.0,
                destination.1,
                lens.complexes,
                outcome,
                complex,
            );
        },
        _ => {},
    }
}

/// A local step of a reverse execution that does not fail leads on.
pub proof fn lemma_reverse_holds<R: Copy, E: Failure, SR: LocalStation<R, E>, SX: Station<Complex<R>, R, E>, SC: LocalStation<Complex<R>, E>, const N: usize, const M: usize>(
    route: Itinerary,
    stations: (SR, SX, SC),
    step: Step,
    at: Place,
    stages: Seq<Stage<N, M>>,
    extra: int,
    source: Seq<Complex<R>>,
    before: HalfLoad<R, N, M>,
    after: HalfLoad<R, N, M>,
    destination: (Seq<R>, Seq<R>),
    lens: HalfLens,
    outcome: Result<(), E>,
)
    requires
        route.wf(),
        route.kind.spec_has_boundary(),
        stages.len() == route.stages,
        stages_wf(stages),
        boundary_resizes(stages, route.boundary as int),
        stays_outside(route, step),
        next_place(route, false, step, at) is Some,
        step.work is Copy || step.work is Kernel,
        half_lies(
            stages,
            route.boundary as int,
            extra,
            false,
            at,
            source.len() as int,
            before,
            destination.0.len() as int,
        ),
        after.real_buffers == before.real_buffers,
        reverse_done::<R, E, SR, SX, SC, N, M>(
            stations,
            step,
            HalfEntries {
                source: stages.last().output,
                crossing: stages[route.boundary as int].input,
            },
            source,
            before.arrays(),
            after.arrays(),
            destination,
            lens,
            outcome,
        ),
        step.work is Kernel ==> stations_hold::<R, Complex<R>, R, E, SR, SX, SC, N, M>(
            stations,
            stages,
            route.boundary as int,
            extra,
            false,
            at.stage,
            lens,
        ),
    ensures
        outcome is Ok,
        half_lies(
            stages,
            route.boundary as int,
            extra,
            false,
            next_place(route, false, step, at)->0,
            source.len() as int,
            after,
            destination.1.len() as int,
        ),
{
    let boundary = route.boundary as int;
    let crossing = stages[boundary].input;
    let entry = stages.last().output;
    let reals_len = real_elements(stages, extra, at.stage);
    let complex = complex_elements(stages, extra, at.stage);
    lemma_copy_holds::<R, E>(reals_len, lens.reals);
    lemma_copy_holds::<Complex<R>, E>(complex, lens.complexes);
    assert(stages[stages.len() - 1].wf() && stages[boundary].wf());
    match (step.work, step.from, step.to) {
        (Work::Copy, Slot::Source, Slot::Complex) => {
            lemma_entered_holds::<Complex<R>, Complex<R>, E, CopyStation, N, M>(
                CopyStation {  },
                source,
                before.complexes,
                after.complexes,
                entry,
                lens.complexes,
                outcome,
                extra,
            );
        },
        (Work::Kernel(_), Slot::Source, Slot::Complex) => {
            lemma_entered_holds::<Complex<R>, Complex<R>, E, SC, N, M>(
                stations.2,
                source,
                before.complexes,
                after.complexes,
                entry,
                lens.complexes,
                outcome,
                extra,
            );
        },
        (Work::Kernel(_), Slot::Complex, Slot::Complex) => {
            lemma_applied_holds::<Complex<R>, E, SC, N, M>(
                stations.2,
                before.complexes,
                after.complexes,
                lens.complexes,
                outcome,
                extra,
                entry,
                complex,
            );
        },
        (Work::Kernel(_), Slot::Complex, Slot::Destination) => {
            lemma_departed_holds::<Complex<R>, R, E, SX, N, M>(
                stations.1,
                before.complexes,
                destination.0,
                destination.1,
                lens.crossing,
                outcome,
                complex,
            );
        },
        (Work::Kernel(_), Slot::Complex, Slot::Real) => {
            before.complexes.lemma_active_fits();
            lemma_entered_holds::<Complex<R>, R, E, SX, N, M>(
                stations.1,
                before.complexes.storage@.subrange(0, before.complexes.active_len()),
                before.reals->0,
                after.reals->0,
                crossing,
                lens.crossing,
                outcome,
                extra,
            );
        },
        (Work::Kernel(_), Slot::Real, Slot::Real) => {
            lemma_applied_holds::<R, E, SR, N, M>(
                stations.0,
                before.reals->0,
                after.reals->0,
                lens.reals,
                outcome,
                extra,
                crossing,
                reals_len,
            );
        },
        (Work::Kernel(_), Slot::Real, Slot::Destination) => {
            lemma_departed_holds::<R, R, E, SR, N, M>(
                stations.0,
                before.reals->0,
                destination.0,
                destination.1,
                lens.reals,
                outcome,
                reals_len,
            );
        },
        (Work::Copy, Slot::Real, Slot::Destination) => {
            lemma_departed_holds::<R, R, E, CopyStation, N, M>(
                CopyStation {  },
                before.reals->0,
                destination.0,
                destination.1,
                lens.reals,
                outcome,
                reals_len,
            );
        },
        _ => {},
    }
}

/// The layouts of real exchanges, and those of complex ones.
pub proof fn lemma_half_layouts<const N: usize, const M: usize>(stages: Seq<Stage<N, M>>)
    requires
        stages_wf(stages),
    ensures
        all_wf(inputs_of(stages)),
        all_wf(outputs_of(stages)),
{
    assert forall|i: int| 0 <= i < inputs_of(stages).len() implies (#[trigger] inputs_of(
        stages,
    )[i]).wf() by {
        assert(stages[i].wf());
    }
    assert forall|i: int| 0 <= i < outputs_of(stages).len() implies (#[trigger] outputs_of(
        stages,
    )[i]).wf() by {
        assert(stages[i].wf());
    }
}

/// An exchange that succeeds leads on.
pub proof fn lemma_half_carried_holds<R, E: Failure, XR: Fn(usize, Passage, Load<R, N, M>) -> (Load<R, N, M>, Result<(), FftError>), XC: Fn(usize, Passage, Load<Complex<R>, N, M>) -> (Load<Complex<R>, N, M>, Result<(), FftError>), const N: usize, const M: usize>(
    route: Itinerary,
    direction: Direction,
    exchanges: (XR, XC),
    transitions: Seq<Transition>,
    step: Step,
    index: usize,
    at: Place,
    stages: Seq<Stage<N, M>>,
    extra: int,
    source_len: int,
    before: HalfLoad<R, N, M>,
    after: HalfLoad<R, N, M>,
    destination_len: int,
    outcome: Result<(), E>,
)
    requires
        route.wf(),
        route.kind.spec_has_boundary(),
        stages.len() == route.stages,
        transitions.len() == stages.len() - 1,
        stages_wf(stages),
        step.work == Work::Exchange(index),
        next_place(route, direction == Direction::Forward, step, at) is Some,
        carries::<R, XR, N, M>(exchanges.0),
        carries::<Complex<R>, XC, N, M>(exchanges.1),
        leads_on::<R, XR, N, M>(exchanges.0, transitions, direction, inputs_of(stages)),
        leads_on::<Complex<R>, XC, N, M>(exchanges.1, transitions, direction, outputs_of(stages)),
        half_lies(
            stages,
            route.boundary as int,
            extra,
            direction == Direction::Forward,
            at,
            source_len,
            before,
            destination_len,
        ),
        half_carried::<R, E, XR, XC, N, M>(
            exchanges.0,
            exchanges.1,
            transitions,
            direction,
            index,
            step.from,
            before,
            after,
            outcome,
        ),
    ensures
        outcome is Ok,
        half_lies(
            stages,
            route.boundary as int,
            extra,
            direction == Direction::Forward,
            next_place(route, direction == Direction::Forward, step, at)->0,
            source_len,
            after,
            destination_len,
        ),
{
    let forward = direction == Direction::Forward;
    let entries = half_entries(stages, route.boundary as int, forward);
    lemma_half_layouts(stages);
    if step.from == Slot::Real {
        lemma_carried_holds::<R, E, XR, N, M>(
            exchanges.0,
            transitions,
            direction,
            inputs_of(stages),
            index,
            (before.reals->0, before.real_buffers->0),
            (after.reals->0, after.real_buffers->0),
            outcome,
            extra,
            entries.0,
        );
    } else {
        lemma_carried_holds::<Complex<R>, E, XC, N, M>(
            exchanges.1,
            transitions,
            direction,
            outputs_of(stages),
            index,
            (before.complexes, before.buffers),
            (after.complexes, after.buffers),
            outcome,
            extra,
            entries.1,
        );
    }
}

/// The first part of an exchange that succeeds leads on.
pub proof fn lemma_half_part_lands<R, E, YR: Fn(usize, Direction, Option<bool>, Load<R, N, M>) -> (Load<R, N, M>, Result<(), OverlapError<E>>), YC: Fn(usize, Direction, Option<bool>, Load<Complex<R>, N, M>) -> (Load<Complex<R>, N, M>, Result<(), OverlapError<E>>), const N: usize, const M: usize>(
    route: Itinerary,
    direction: Direction,
    splits: (YR, YC),
    step: Step,
    index: usize,
    at: Place,
    stages: Seq<Stage<N, M>>,
    extra: int,
    source_len: int,
    before: HalfLoad<R, N, M>,
    after: HalfLoad<R, N, M>,
    destination_len: int,
    outcome: Result<(), OverlapError<E>>,
)
    requires
        route.wf(),
        route.kind.spec_has_boundary(),
        stages.len() == route.stages,
        stages_wf(stages),
        step.work == Work::Exchange(index),
        next_place(route, direction == Direction::Forward, step, at) is Some,
        carries_split::<R, E, YR, N, M>(splits.0),
        carries_split::<Complex<R>, E, YC, N, M>(splits.1),
        parts_lead_on::<R, E, YR, N, M>(splits.0, direction, inputs_of(stages)),
        parts_lead_on::<Complex<R>, E, YC, N, M>(splits.1, direction, outputs_of(stages)),
        half_lies(
            stages,
            route.boundary as int,
            extra,
            direction == Direction::Forward,
            at,
            source_len,
            before,
            destination_len,
        ),
        half_part_done::<R, E, YR, YC, N, M>(
            splits.0,
            splits.1,
            direction,
            index,
            if index < route.boundary {
                Slot::Real
            } else {
                Slot::Complex
            },
            None,
            before,
            after,
            outcome,
        ),
    ensures
        outcome is Ok,
        half_lies(
            stages,
            route.boundary as int,
            extra,
            direction == Direction::Forward,
            next_place(route, direction == Direction::Forward, step, at)->0,
            source_len,
            after,
            destination_len,
        ),
{
    let forward = direction == Direction::Forward;
    let entries = half_entries(stages, route.boundary as int, forward);
    lemma_half_layouts(stages);
    if index < route.boundary {
        lemma_part_lands::<R, E, YR, N, M>(
            splits.0,
            direction,
            inputs_of(stages),
            index,
            (before.reals->0, before.real_buffers->0),
            (after.reals->0, after.real_buffers->0),
            outcome,
            extra,
            entries.0,
        );
    } else {
        lemma_part_lands::<Complex<R>, E, YC, N, M>(
            splits.1,
            direction,
            outputs_of(stages),
            index,
            (before.complexes, before.buffers),
            (after.complexes, after.buffers),
            outcome,
            extra,
            entries.1,
        );
    }
}

/// The second part of an exchange that succeeds leaves the values where they are.
pub proof fn lemma_half_part_settles<R, E, YR: Fn(usize, Direction, Option<bool>, Load<R, N, M>) -> (Load<R, N, M>, Result<(), OverlapError<E>>), YC: Fn(usize, Direction, Option<bool>, Load<Complex<R>, N, M>) -> (Load<Complex<R>, N, M>, Result<(), OverlapError<E>>), const N: usize, const M: usize>(
    boundary: int,
    direction: Direction,
    splits: (YR, YC),
    index: usize,
    at: Place,
    stages: Seq<Stage<N, M>>,
    extra: int,
    source_len: int,
    before: HalfLoad<R, N, M>,
    after: HalfLoad<R, N, M>,
    destination_len: int,
    outcome: Result<(), OverlapError<E>>,
)
    requires
        carries_split::<R, E, YR, N, M>(splits.0),
        carries_split::<Complex<R>, E, YC, N, M>(splits.1),
        parts_lead_on::<R, E, YR, N, M>(splits.0, direction, inputs_of(stages)),
        parts_lead_on::<Complex<R>, E, YC, N, M>(splits.1, direction, outputs_of(stages)),
        half_lies(
            stages,
            boundary,
            extra,
            direction == Direction::Forward,
            at,
            source_len,
            before,
            destination_len,
        ),
        half_part_done::<R, E, YR, YC, N, M>(
            splits.0,
            splits.1,
            direction,
            index,
            if index < boundary {
                Slot::Real
            } else {
                Slot::Complex
            },
            Some(true),
            before,
            after,
            outcome,
        ),
    ensures
        outcome is Ok,
        half_lies(
            stages,
            boundary,
            extra,
            direction == Direction::Forward,
            at,
            source_len,
            after,
            destination_len,
        ),
{
    let forward = direction == Direction::Forward;
    let entries = half_entries(stages, boundary, forward);
    if index < boundary {
        lemma_part_settles::<R, E, YR, N, M>(
            splits.0,
            direction,
            inputs_of(stages),
            index,
            (before.reals->0, before.real_buffers->0),
            (after.reals->0, after.real_buffers->0),
            outcome,
            extra,
            entries.0,
        );
    } else {
        lemma_part_settles::<Complex<R>, E, YC, N, M>(
            splits.1,
            direction,
            outputs_of(stages),
            index,
            (before.complexes, before.buffers),
            (after.complexes, after.buffers),
            outcome,
            extra,
            entries.1,
        );
    }
}

} // verus!
