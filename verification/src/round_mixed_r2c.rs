//! What an execution of a mixed real-to-complex plan and its way back leave of the values.

use vstd::prelude::*;

use crate::array::ManyPencilArray;
use crate::carrier::Load;
use crate::crew::all_done;
use crate::crew::lemma_same_steps;
use crate::crew::Crew;
use crate::crew::InTurn;
use crate::crew_mixed_r2c::mixed_half_load;
use crate::crew_mixed_r2c::MixedR2cForwardCrew;
use crate::crew_mixed_r2c::MixedR2cForwardOverlapCrew;
use crate::crew_mixed_r2c::MixedR2cForwardTask;
use crate::crew_mixed_r2c::MixedR2cReverseCrew;
use crate::crew_mixed_r2c::MixedR2cReverseOverlapCrew;
use crate::crew_mixed_r2c::MixedR2cReverseTask;
use crate::error::FftError;
use crate::error::MixedError;
use crate::error::OverlapError;
use crate::inspect::Inspector;
use crate::kernels::MixedComplexStation;
use crate::kernels::MixedForwardCrossing;
use crate::kernels::MixedRealStation;
use crate::kernels::MixedReverseCrossing;
use crate::laws::undoes;
use crate::layout::Direction;
use crate::mixed_r2c::MixedR2cCore;
use crate::perform::HalfLens;
use crate::round_half::clearing_keeps;
use crate::round_half::converts_lines;
use crate::round_half::half_held;
use crate::round_half::law_mixed_crossing_undone;
use crate::round_half::law_prefix_station_undone;
use crate::round_half::lemma_forward_maps;
use crate::round_half::lemma_reverse_maps;
use crate::round_half::lies_alike;
use crate::round_half::maps_home;
use crate::round_half::maps_there;
use crate::round_half::HalfValues;
use crate::round_trip::active_values;
use crate::round_trip::exchanges_undone;
use crate::round_trip::kernels_undone;
use crate::round_trip::law_mixed_station_undone;
use crate::round_trip::lemma_exchanged;
use crate::round_trip::lemma_one_done;
use crate::round_trip::lemma_two_done;
use crate::round_trip::maps;
use crate::run::steps_run;
use crate::scalar::Complex;
use crate::scalar::FftReal;
use crate::schedule::copy_step;
use crate::schedule::exchange_step;
use crate::schedule::Itinerary;
use crate::schedule::Mode;
use crate::schedule::Slot;
use crate::schedule::Step;
use crate::schedule::Work;
use crate::stages::LocalError;
use crate::transition::Passage;
use crate::walk::law_overlap_does_steps;
use crate::walk::law_way_back;
use crate::walk::lemma_all_done_split;
use crate::walk::lemma_pieces_all_done;
use crate::walk::ran_overlapped;
use crate::walk::walked;

verus! {

/// The values in front of move `index` of a forward execution.
pub open spec fn seen_there<R: FftReal, FR, FX, FC, XR, XC, const N: usize, const M: usize>(
    crew: MixedR2cForwardCrew<R, FR, FX, FC, XR, XC, N, M>,
    moves: int,
    index: int,
    state: MixedR2cForwardTask<R, N, M>,
) -> HalfValues<R> {
    if index <= 0 {
        HalfValues::Real(crew.source.data@)
    } else if index >= moves {
        HalfValues::Complex(state.0.data@)
    } else if index <= 2 * crew.core.boundary {
        HalfValues::Real(active_values(state.1.real_intermediate->0))
    } else {
        HalfValues::Complex(active_values(state.1.intermediate))
    }
}

/// The values behind the move of a reverse execution that undoes move `index`.
pub open spec fn seen_home<R: FftReal, GR, GX, GC, ZR, ZC, V, const N: usize, const M: usize>(
    crew: MixedR2cReverseCrew<R, GR, GX, GC, ZR, ZC, V, N, M>,
    moves: int,
    index: int,
    state: MixedR2cReverseTask<R, N, M>,
) -> HalfValues<R> {
    if index >= moves {
        HalfValues::Complex(crew.source.data@)
    } else if index <= 0 {
        HalfValues::Real(state.0.data@)
    } else if index <= 2 * crew.core.boundary {
        HalfValues::Real(active_values(state.1.real_intermediate->0))
    } else {
        HalfValues::Complex(active_values(state.1.intermediate))
    }
}

/// What the boundary may make of real values.
pub open spec fn crossing_makes<R: FftReal, FX: Fn(&[R], usize) -> Result<Vec<Complex<R>>, LocalError>, const N: usize, const M: usize>(
    core: MixedR2cCore<N, M>,
    crossing: FX,
) -> spec_fn(Seq<Complex<R>>) -> bool {
    |values: Seq<Complex<R>>|
        exists|source: Seq<R>, line: usize| #[trigger]
            maps::<R, Complex<R>, MixedError, MixedForwardCrossing<FX, N, M>>(
                core.spec_forward_crossing(&crossing, line),
                source,
                values,
            )
}

/// A local step of a forward execution that succeeds turns the values in front of it into those
/// behind it. `stage` is that of a kernel, or the first one.
proof fn lemma_local_there<R: FftReal, FR: Fn(&[R], usize) -> Result<Vec<R>, LocalError>, FX: Fn(&[R], usize) -> Result<Vec<Complex<R>>, LocalError>, FC: Fn(&[Complex<R>], usize) -> Result<Vec<Complex<R>>, LocalError>, XR: Fn(usize, Passage, Load<R, N, M>) -> (Load<R, N, M>, Result<(), FftError>), XC: Fn(usize, Passage, Load<Complex<R>, N, M>) -> (Load<Complex<R>, N, M>, Result<(), FftError>), const N: usize, const M: usize>(
    crew: MixedR2cForwardCrew<R, FR, FX, FC, XR, XC, N, M>,
    step: Step,
    stage: int,
    before: MixedR2cForwardTask<R, N, M>,
    after: MixedR2cForwardTask<R, N, M>,
)
    requires
        step.work == Work::Kernel(stage as usize) || (step.work == Work::Copy && stage == 0),
        0 <= stage < crew.core.stages@.len(),
        crew.core.stages@.len() <= usize::MAX,
        crew.does(step, before, after, Ok(())),
    ensures
        ({
            let given = half_held(
                step.from,
                HalfValues::Real(crew.source.data@),
                mixed_half_load(before.1).arrays(),
                HalfValues::Complex(before.0.data@),
            );
            let made = half_held(
                step.to,
                HalfValues::Real(crew.source.data@),
                mixed_half_load(after.1).arrays(),
                HalfValues::Complex(after.0.data@),
            );
            match step.work {
                Work::Kernel(_) => maps_there::<R, MixedError, MixedRealStation<FR, N, M>, MixedForwardCrossing<FX, N, M>, MixedComplexStation<FC, N, M>>(
                    (
                        crew.core.spec_prefix_station(Direction::Forward, step, &crew.prefixes@[stage]),
                        crew.core.spec_forward_crossing(crew.crossing, before.1.buffers.complex_line@.len() as usize),
                        crew.core.spec_tail_station(Direction::Forward, step, &crew.kernels@[stage]),
                    ),
                    given,
                    made,
                ),
                _ => made == given,
            }
        }),
{
    lemma_forward_maps::<R, MixedError, MixedRealStation<FR, N, M>, MixedForwardCrossing<FX, N, M>, MixedComplexStation<FC, N, M>, N, M>(
        (
            crew.core.spec_prefix_station(Direction::Forward, step, &crew.prefixes@[stage]),
            crew.core.spec_forward_crossing(crew.crossing, before.1.buffers.complex_line@.len() as usize),
            crew.core.spec_tail_station(Direction::Forward, step, &crew.kernels@[stage]),
        ),
        step,
        crew.core.entries(Direction::Forward),
        crew.source.data@,
        mixed_half_load(before.1).arrays(),
        mixed_half_load(after.1).arrays(),
        (before.0.data@, after.0.data@),
        (HalfLens {
            crossing: before.1.buffers.real_source_line@.len() as usize,
            reals: before.1.buffers.real_strided_line@.len() as usize,
            complexes: before.1.buffers.complex_strided_line@.len() as usize,
        }),
    );
}

/// A local step of a reverse execution that succeeds turns the values in front of it into those
/// behind it. `stage` is that of a kernel, or the first one.
proof fn lemma_local_home<R: FftReal, GR: Fn(&[R], usize) -> Result<Vec<R>, LocalError>, GX: Fn(&[Complex<R>], usize) -> Result<Vec<R>, LocalError>, GC: Fn(&[Complex<R>], usize) -> Result<Vec<Complex<R>>, LocalError>, ZR: Fn(usize, Passage, Load<R, N, M>) -> (Load<R, N, M>, Result<(), FftError>), ZC: Fn(usize, Passage, Load<Complex<R>, N, M>) -> (Load<Complex<R>, N, M>, Result<(), FftError>), V: Inspector<R, MixedError, N, M>, const N: usize, const M: usize>(
    crew: MixedR2cReverseCrew<R, GR, GX, GC, ZR, ZC, V, N, M>,
    step: Step,
    stage: int,
    before: MixedR2cReverseTask<R, N, M>,
    after: MixedR2cReverseTask<R, N, M>,
)
    requires
        step.work == Work::Kernel(stage as usize) || (step.work == Work::Copy && stage == 0),
        0 <= stage < crew.core.stages@.len(),
        crew.core.stages@.len() <= usize::MAX,
        crew.does(step, before, after, Ok(())),
    ensures
        ({
            let given = half_held(
                step.from,
                HalfValues::Complex(crew.source.data@),
                mixed_half_load(before.1).arrays(),
                HalfValues::Real(before.0.data@),
            );
            let made = half_held(
                step.to,
                HalfValues::Complex(crew.source.data@),
                mixed_half_load(after.1).arrays(),
                HalfValues::Real(after.0.data@),
            );
            match step.work {
                Work::Kernel(_) => maps_home::<R, MixedError, MixedRealStation<GR, N, M>, MixedReverseCrossing<GX, N, M>, MixedComplexStation<GC, N, M>>(
                    (
                        crew.core.spec_prefix_station(Direction::Inverse, step, &crew.prefixes@[stage]),
                        crew.core.spec_reverse_crossing(crew.crossing, before.1.buffers.real_line@.len() as usize),
                        crew.core.spec_tail_station(Direction::Inverse, step, &crew.kernels@[stage]),
                    ),
                    given,
                    made,
                ),
                _ => made == given,
            }
        }),
{
    lemma_reverse_maps::<R, MixedError, MixedRealStation<GR, N, M>, MixedReverseCrossing<GX, N, M>, MixedComplexStation<GC, N, M>, N, M>(
        (
            crew.core.spec_prefix_station(Direction::Inverse, step, &crew.prefixes@[stage]),
            crew.core.spec_reverse_crossing(crew.crossing, before.1.buffers.real_line@.len() as usize),
            crew.core.spec_tail_station(Direction::Inverse, step, &crew.kernels@[stage]),
        ),
        step,
        crew.core.entries(Direction::Inverse),
        crew.source.data@,
        mixed_half_load(before.1).arrays(),
        mixed_half_load(after.1).arrays(),
        (before.0.data@, after.0.data@),
        (HalfLens {
            crossing: before.1.buffers.complex_source_line@.len() as usize,
            reals: before.1.buffers.real_strided_line@.len() as usize,
            complexes: before.1.buffers.complex_strided_line@.len() as usize,
        }),
    );
}

/// What a forward execution makes of the values at a stage: the step of its kernel and the buffer
/// for a result line of the boundary tell how.
pub proof fn lemma_stage_there<R: FftReal, FR: Fn(&[R], usize) -> Result<Vec<R>, LocalError>, FX: Fn(&[R], usize) -> Result<Vec<Complex<R>>, LocalError>, FC: Fn(&[Complex<R>], usize) -> Result<Vec<Complex<R>>, LocalError>, XR: Fn(usize, Passage, Load<R, N, M>) -> (Load<R, N, M>, Result<(), FftError>), XC: Fn(usize, Passage, Load<Complex<R>, N, M>) -> (Load<Complex<R>, N, M>, Result<(), FftError>), const N: usize, const M: usize>(
    crew: MixedR2cForwardCrew<R, FR, FX, FC, XR, XC, N, M>,
    route: Itinerary,
    mode: Mode,
    eager: Seq<bool>,
    stage: int,
    before: MixedR2cForwardTask<R, N, M>,
    after: MixedR2cForwardTask<R, N, M>,
) -> (how: (Step, usize))
    requires
        crew.core.wf(),
        route == crew.core.itinerary(),
        route.wf(),
        mode != Mode::InPlace,
        route.stages == crew.core.stages@.len(),
        0 <= stage <= route.last(),
        all_done::<MixedR2cForwardTask<R, N, M>, MixedError, MixedR2cForwardCrew<R, FR, FX, FC, XR, XC, N, M>>(
            crew,
            route.stage_there(mode, stage, eager),
            before,
            after,
        ),
    ensures
        ({
            let step = how.0;
            let given = seen_there(crew, route.moves(), 2 * stage, before);
            let made = seen_there(crew, route.moves(), 2 * stage + 1, after);
            &&& step.work == Work::Kernel(stage as usize)
            &&& maps_there::<R, MixedError, MixedRealStation<FR, N, M>, MixedForwardCrossing<FX, N, M>, MixedComplexStation<FC, N, M>>(
                (
                    crew.core.spec_prefix_station(Direction::Forward, step, &crew.prefixes@[stage]),
                    crew.core.spec_forward_crossing(crew.crossing, how.1),
                    crew.core.spec_tail_station(Direction::Forward, step, &crew.kernels@[stage]),
                ),
                given,
                made,
            )
        }),
{
    let list = route.stage_there(mode, stage, eager);
    let b = route.boundary as int;
    let line = before.1.buffers.complex_line@.len() as usize;
    let work = if stage == 0 {
        route.entry(mode)
    } else {
        route.arrival(mode, stage, eager)
    };
    let step = work[0];
    assert(work =~= seq![step]);
    if stage == route.last() && (mode == Mode::Overlap || stage == b) {
        let copy = copy_step(Slot::Complex, Slot::Destination, false);
        assert(list =~= seq![step, copy]);
        let between = lemma_two_done::<MixedR2cForwardTask<R, N, M>, MixedError, MixedR2cForwardCrew<R, FR, FX, FC, XR, XC, N, M>>(crew, step, copy, before, after);
        lemma_local_there(crew, step, stage, before, between);
        lemma_local_there(crew, copy, 0, between, after);
    } else {
        assert(list =~= seq![step]);
        lemma_one_done::<MixedR2cForwardTask<R, N, M>, MixedError, MixedR2cForwardCrew<R, FR, FX, FC, XR, XC, N, M>>(crew, step, before, after);
        lemma_local_there(crew, step, stage, before, after);
    }
    (step, line)
}

/// What a reverse execution makes of the values at the boundary: the planes are cleared, and the
/// kernel works on what is left.
pub proof fn lemma_boundary_home<R: FftReal, GR: Fn(&[R], usize) -> Result<Vec<R>, LocalError>, GX: Fn(&[Complex<R>], usize) -> Result<Vec<R>, LocalError>, GC: Fn(&[Complex<R>], usize) -> Result<Vec<Complex<R>>, LocalError>, ZR: Fn(usize, Passage, Load<R, N, M>) -> (Load<R, N, M>, Result<(), FftError>), ZC: Fn(usize, Passage, Load<Complex<R>, N, M>) -> (Load<Complex<R>, N, M>, Result<(), FftError>), V: Inspector<R, MixedError, N, M>, const N: usize, const M: usize>(
    crew: MixedR2cReverseCrew<R, GR, GX, GC, ZR, ZC, V, N, M>,
    route: Itinerary,
    mode: Mode,
    eager: Seq<bool>,
    before: MixedR2cReverseTask<R, N, M>,
    after: MixedR2cReverseTask<R, N, M>,
) -> (how: (
    Step,
    usize,
    ManyPencilArray<Complex<R>, N, M>,
    ManyPencilArray<Complex<R>, N, M>,
))
    requires
        crew.core.wf(),
        route == crew.core.itinerary(),
        route.wf(),
        mode != Mode::InPlace,
        route.stages == crew.core.stages@.len(),
        all_done::<MixedR2cReverseTask<R, N, M>, MixedError, MixedR2cReverseCrew<R, GR, GX, GC, ZR, ZC, V, N, M>>(
            crew,
            route.stage_home(mode, route.boundary as int, eager),
            before,
            after,
        ),
    ensures
        ({
            let stage = route.boundary as int;
            let step = how.0;
            &&& step.work == Work::Kernel(stage as usize)
            &&& seen_home(crew, route.moves(), 2 * stage + 1, before) == HalfValues::Complex(
                active_values(how.2),
            )
            &&& crew.inspector.clears(how.2, how.3, Ok(()))
            &&& maps_home::<R, MixedError, MixedRealStation<GR, N, M>, MixedReverseCrossing<GX, N, M>, MixedComplexStation<GC, N, M>>(
                (
                    crew.core.spec_prefix_station(Direction::Inverse, step, &crew.prefixes@[stage]),
                    crew.core.spec_reverse_crossing(crew.crossing, how.1),
                    crew.core.spec_tail_station(Direction::Inverse, step, &crew.kernels@[stage]),
                ),
                HalfValues::Complex(active_values(how.3)),
                seen_home(crew, route.moves(), 2 * stage, after),
            )
        }),
{
    let stage = route.boundary as int;
    let list = route.stage_home(mode, stage, eager);
    let agreed = route.kind.spec_agrees();
    let crossing = if stage == route.last() {
        route.crossing(mode, true, agreed, false)
    } else {
        route.return_to(mode, stage, eager)
    };
    let step = crossing.last();
    let (validate, clear) = (crossing[0], crossing[1]);
    let checks = seq![validate, clear];
    assert(crossing =~= checks + seq![step]);
    let entered = if stage == route.last() {
        let copy = copy_step(Slot::Source, Slot::Complex, agreed);
        assert(list =~= seq![copy] + (checks + seq![step]));
        let entered = lemma_all_done_split::<MixedR2cReverseTask<R, N, M>, MixedError, MixedR2cReverseCrew<R, GR, GX, GC, ZR, ZC, V, N, M>>(
            crew,
            seq![copy],
            checks + seq![step],
            before,
            after,
        );
        lemma_one_done::<MixedR2cReverseTask<R, N, M>, MixedError, MixedR2cReverseCrew<R, GR, GX, GC, ZR, ZC, V, N, M>>(crew, copy, before, entered);
        lemma_local_home(crew, copy, 0, before, entered);
        entered
    } else {
        assert(list =~= checks + seq![step]);
        before
    };
    let cleared = lemma_all_done_split::<MixedR2cReverseTask<R, N, M>, MixedError, MixedR2cReverseCrew<R, GR, GX, GC, ZR, ZC, V, N, M>>(
        crew,
        checks,
        seq![step],
        entered,
        after,
    );
    let checked = lemma_two_done::<MixedR2cReverseTask<R, N, M>, MixedError, MixedR2cReverseCrew<R, GR, GX, GC, ZR, ZC, V, N, M>>(crew, validate, clear, entered, cleared);
    lemma_one_done::<MixedR2cReverseTask<R, N, M>, MixedError, MixedR2cReverseCrew<R, GR, GX, GC, ZR, ZC, V, N, M>>(crew, step, cleared, after);
    lemma_local_home(crew, step, stage, cleared, after);
    let line = cleared.1.buffers.real_line@.len() as usize;
    (step, line, checked.1.intermediate, cleared.1.intermediate)
}

/// What a reverse execution makes of the values at a stage other than the boundary.
pub proof fn lemma_stage_home<R: FftReal, GR: Fn(&[R], usize) -> Result<Vec<R>, LocalError>, GX: Fn(&[Complex<R>], usize) -> Result<Vec<R>, LocalError>, GC: Fn(&[Complex<R>], usize) -> Result<Vec<Complex<R>>, LocalError>, ZR: Fn(usize, Passage, Load<R, N, M>) -> (Load<R, N, M>, Result<(), FftError>), ZC: Fn(usize, Passage, Load<Complex<R>, N, M>) -> (Load<Complex<R>, N, M>, Result<(), FftError>), V: Inspector<R, MixedError, N, M>, const N: usize, const M: usize>(
    crew: MixedR2cReverseCrew<R, GR, GX, GC, ZR, ZC, V, N, M>,
    route: Itinerary,
    mode: Mode,
    eager: Seq<bool>,
    stage: int,
    before: MixedR2cReverseTask<R, N, M>,
    after: MixedR2cReverseTask<R, N, M>,
) -> (how: (Step, usize))
    requires
        crew.core.wf(),
        route == crew.core.itinerary(),
        route.wf(),
        mode != Mode::InPlace,
        route.stages == crew.core.stages@.len(),
        0 <= stage <= route.last(),
        stage != route.boundary,
        all_done::<MixedR2cReverseTask<R, N, M>, MixedError, MixedR2cReverseCrew<R, GR, GX, GC, ZR, ZC, V, N, M>>(
            crew,
            route.stage_home(mode, stage, eager),
            before,
            after,
        ),
    ensures
        ({
            let step = how.0;
            let given = seen_home(crew, route.moves(), 2 * stage + 1, before);
            let made = seen_home(crew, route.moves(), 2 * stage, after);
            &&& step.work == Work::Kernel(stage as usize)
            &&& maps_home::<R, MixedError, MixedRealStation<GR, N, M>, MixedReverseCrossing<GX, N, M>, MixedComplexStation<GC, N, M>>(
                (
                    crew.core.spec_prefix_station(Direction::Inverse, step, &crew.prefixes@[stage]),
                    crew.core.spec_reverse_crossing(crew.crossing, how.1),
                    crew.core.spec_tail_station(Direction::Inverse, step, &crew.kernels@[stage]),
                ),
                given,
                made,
            )
        }),
{
    let list = route.stage_home(mode, stage, eager);
    let line = before.1.buffers.real_line@.len() as usize;
    let work = if stage == route.last() {
        route.reverse_entry(mode)
    } else {
        route.return_to(mode, stage, eager)
    };
    let step = work[0];
    assert(work =~= seq![step]);
    if stage == 0 && mode == Mode::Overlap {
        let copy = copy_step(Slot::Real, Slot::Destination, false);
        assert(list =~= seq![step, copy]);
        let between = lemma_two_done::<MixedR2cReverseTask<R, N, M>, MixedError, MixedR2cReverseCrew<R, GR, GX, GC, ZR, ZC, V, N, M>>(crew, step, copy, before, after);
        lemma_local_home(crew, step, stage, before, between);
        lemma_local_home(crew, copy, 0, between, after);
    } else {
        assert(list =~= seq![step]);
        lemma_one_done::<MixedR2cReverseTask<R, N, M>, MixedError, MixedR2cReverseCrew<R, GR, GX, GC, ZR, ZC, V, N, M>>(crew, step, before, after);
        lemma_local_home(crew, step, stage, before, after);
    }
    (step, line)
}

/// The kernels and exchanges of the way back undo those of the way there, and the endpoint planes
/// that the boundary makes need no clearing.
pub open spec fn mixed_r2c_undone<R: FftReal, FR: Fn(&[R], usize) -> Result<Vec<R>, LocalError>, GR: Fn(&[R], usize) -> Result<Vec<R>, LocalError>, FX: Fn(&[R], usize) -> Result<Vec<Complex<R>>, LocalError>, GX: Fn(&[Complex<R>], usize) -> Result<Vec<R>, LocalError>, FC: Fn(&[Complex<R>], usize) -> Result<Vec<Complex<R>>, LocalError>, GC: Fn(&[Complex<R>], usize) -> Result<Vec<Complex<R>>, LocalError>, XR: Fn(usize, Passage, Load<R, N, M>) -> (Load<R, N, M>, Result<(), FftError>), XC: Fn(usize, Passage, Load<Complex<R>, N, M>) -> (Load<Complex<R>, N, M>, Result<(), FftError>), ZR: Fn(usize, Passage, Load<R, N, M>) -> (Load<R, N, M>, Result<(), FftError>), ZC: Fn(usize, Passage, Load<Complex<R>, N, M>) -> (Load<Complex<R>, N, M>, Result<(), FftError>), V: Inspector<R, MixedError, N, M>, const N: usize, const M: usize>(
    there: MixedR2cForwardCrew<R, FR, FX, FC, XR, XC, N, M>,
    home: MixedR2cReverseCrew<R, GR, GX, GC, ZR, ZC, V, N, M>,
) -> bool {
    let plan = there.core.plan();
    &&& *home.core == *there.core
    &&& home.direction != Direction::Forward
    &&& lies_alike(there.core.stages@)
    &&& kernels_undone::<R, LocalError, FR, GR>(there.prefixes@, home.prefixes@)
    &&& kernels_undone::<Complex<R>, LocalError, FC, GC>(there.kernels@, home.kernels@)
    &&& undoes::<R, Complex<R>, LocalError, FX, GX>(*there.crossing, *home.crossing)
    &&& converts_lines::<R, Complex<R>, LocalError, FX>(
        *there.crossing,
        plan.real_len as int,
        plan.complex_len as int,
    )
    &&& converts_lines::<Complex<R>, R, LocalError, GX>(
        *home.crossing,
        plan.complex_len as int,
        plan.real_len as int,
    )
    &&& exchanges_undone::<R, XR, ZR, N, M>(
        *there.real_exchange,
        *home.real_exchange,
        there.core.transitions@,
        home.direction,
    )
    &&& exchanges_undone::<Complex<R>, XC, ZC, N, M>(
        *there.exchange,
        *home.exchange,
        there.core.transitions@,
        home.direction,
    )
    &&& clearing_keeps::<R, MixedError, V, N, M>(
        *home.inspector,
        crossing_makes::<R, FX, N, M>(*there.core, *there.crossing),
    )
}

proof fn lemma_move_undone<R: FftReal, FR: Fn(&[R], usize) -> Result<Vec<R>, LocalError>, GR: Fn(&[R], usize) -> Result<Vec<R>, LocalError>, FX: Fn(&[R], usize) -> Result<Vec<Complex<R>>, LocalError>, GX: Fn(&[Complex<R>], usize) -> Result<Vec<R>, LocalError>, FC: Fn(&[Complex<R>], usize) -> Result<Vec<Complex<R>>, LocalError>, GC: Fn(&[Complex<R>], usize) -> Result<Vec<Complex<R>>, LocalError>, XR: Fn(usize, Passage, Load<R, N, M>) -> (Load<R, N, M>, Result<(), FftError>), XC: Fn(usize, Passage, Load<Complex<R>, N, M>) -> (Load<Complex<R>, N, M>, Result<(), FftError>), ZR: Fn(usize, Passage, Load<R, N, M>) -> (Load<R, N, M>, Result<(), FftError>), ZC: Fn(usize, Passage, Load<Complex<R>, N, M>) -> (Load<Complex<R>, N, M>, Result<(), FftError>), V: Inspector<R, MixedError, N, M>, const N: usize, const M: usize>(
    there: MixedR2cForwardCrew<R, FR, FX, FC, XR, XC, N, M>,
    home: MixedR2cReverseCrew<R, GR, GX, GC, ZR, ZC, V, N, M>,
    route: Itinerary,
    mode: Mode,
    eager: (Seq<bool>, Seq<bool>),
    index: int,
    a: MixedR2cForwardTask<R, N, M>,
    b: MixedR2cForwardTask<R, N, M>,
    c: MixedR2cReverseTask<R, N, M>,
    d: MixedR2cReverseTask<R, N, M>,
)
    requires
        there.able(),
        home.able(),
        mixed_r2c_undone::<R, FR, GR, FX, GX, FC, GC, XR, XC, ZR, ZC, V, N, M>(there, home),
        route == there.core.itinerary(),
        route.wf(),
        mode != Mode::InPlace,
        route.stages == there.core.stages@.len(),
        0 <= index < route.moves(),
        all_done::<MixedR2cForwardTask<R, N, M>, MixedError, MixedR2cForwardCrew<R, FR, FX, FC, XR, XC, N, M>>(
            there,
            route.move_there(mode, index, eager.0),
            a,
            b,
        ),
        all_done::<MixedR2cReverseTask<R, N, M>, MixedError, MixedR2cReverseCrew<R, GR, GX, GC, ZR, ZC, V, N, M>>(
            home,
            route.move_home(mode, index, eager.1),
            c,
            d,
        ),
        seen_home(home, route.moves(), index + 1, c) == seen_there(
            there,
            route.moves(),
            index + 1,
            b,
        ),
    ensures
        seen_home(home, route.moves(), index, d) == seen_there(there, route.moves(), index, a),
{
    let stage = index / 2;
    let edge = route.boundary as int;
    if index % 2 == 0 {
        assert(index == 2 * stage);
        let out = lemma_stage_there(there, route, mode, eager.0, stage, a, b);
        assert(there.core.stages@[stage].input.stride_along(there.core.stages@[stage].axis as int)
            == there.core.stages@[stage].output.stride_along(
            there.core.stages@[stage].axis as int,
        ));
        if stage == edge {
            let back = lemma_boundary_home(home, route, mode, eager.1, c, d);
            let crossing = there.core.spec_forward_crossing(there.crossing, out.1);
            let given = seen_there(there, route.moves(), index, a);
            let made = seen_there(there, route.moves(), index + 1, b);
            assert(given is Real && made is Complex);
            assert(maps::<R, Complex<R>, MixedError, MixedForwardCrossing<FX, N, M>>(
                crossing,
                given->Real_0,
                made->Complex_0,
            ));
            assert(crossing_makes::<R, FX, N, M>(*there.core, *there.crossing)(
                active_values(back.2),
            ));
            assert(active_values(back.3) == active_values(back.2));
            law_mixed_crossing_undone::<R, FX, GX, N, M>(
                crossing,
                home.core.spec_reverse_crossing(home.crossing, back.1),
            );
        } else {
            let back = lemma_stage_home(home, route, mode, eager.1, stage, c, d);
            if stage > edge {
                law_mixed_station_undone::<Complex<R>, FC, GC, N, M>(
                    there.core.spec_tail_station(Direction::Forward, out.0, &there.kernels@[stage]),
                    home.core.spec_tail_station(Direction::Inverse, back.0, &home.kernels@[stage]),
                );
            }
            if stage < edge {
                law_prefix_station_undone::<R, FR, GR, N, M>(
                    there.core.spec_prefix_station(
                        Direction::Forward,
                        out.0,
                        &there.prefixes@[stage],
                    ),
                    home.core.spec_prefix_station(
                        Direction::Inverse,
                        back.0,
                        &home.prefixes@[stage],
                    ),
                );
            }
        }
    } else {
        let at = route.carries_in(stage);
        let step = exchange_step(stage, at, mode, route.kind.spec_agrees());
        assert(index == 2 * stage + 1);
        assert(route.move_there(mode, index, eager.0) =~= seq![step]);
        assert(route.move_home(mode, index, eager.1) =~= seq![step]);
        lemma_one_done::<MixedR2cForwardTask<R, N, M>, MixedError, MixedR2cForwardCrew<R, FR, FX, FC, XR, XC, N, M>>(there, step, a, b);
        lemma_one_done::<MixedR2cReverseTask<R, N, M>, MixedError, MixedR2cReverseCrew<R, GR, GX, GC, ZR, ZC, V, N, M>>(home, step, c, d);
        let (la, lb) = (mixed_half_load(a.1), mixed_half_load(b.1));
        let (lc, ld) = (mixed_half_load(c.1), mixed_half_load(d.1));
        if at == Slot::Real {
            lemma_exchanged::<R, MixedError, XR, N, M>(
                *there.real_exchange,
                there.core.transitions@,
                Direction::Forward,
                stage as usize,
                (la.reals->0, la.real_buffers->0),
                (lb.reals->0, lb.real_buffers->0),
            );
            lemma_exchanged::<R, MixedError, ZR, N, M>(
                *home.real_exchange,
                home.core.transitions@,
                home.direction,
                stage as usize,
                (lc.reals->0, lc.real_buffers->0),
                (ld.reals->0, ld.real_buffers->0),
            );
        } else {
            lemma_exchanged::<Complex<R>, MixedError, XC, N, M>(
                *there.exchange,
                there.core.transitions@,
                Direction::Forward,
                stage as usize,
                (la.complexes, la.buffers),
                (lb.complexes, lb.buffers),
            );
            lemma_exchanged::<Complex<R>, MixedError, ZC, N, M>(
                *home.exchange,
                home.core.transitions@,
                home.direction,
                stage as usize,
                (lc.complexes, lc.buffers),
                (ld.complexes, ld.buffers),
            );
        }
    }
}

/// The steps of a forward execution of a mixed real-to-complex plan, out of place or with overlap,
/// and those of a reverse one of what it made, with kernels and exchanges that undo those of the
/// first, give back the real values, where the endpoint planes that the boundary makes need no
/// clearing.
pub proof fn law_mixed_r2c_steps_undone<R: FftReal, FR: Fn(&[R], usize) -> Result<Vec<R>, LocalError>, GR: Fn(&[R], usize) -> Result<Vec<R>, LocalError>, FX: Fn(&[R], usize) -> Result<Vec<Complex<R>>, LocalError>, GX: Fn(&[Complex<R>], usize) -> Result<Vec<R>, LocalError>, FC: Fn(&[Complex<R>], usize) -> Result<Vec<Complex<R>>, LocalError>, GC: Fn(&[Complex<R>], usize) -> Result<Vec<Complex<R>>, LocalError>, XR: Fn(usize, Passage, Load<R, N, M>) -> (Load<R, N, M>, Result<(), FftError>), XC: Fn(usize, Passage, Load<Complex<R>, N, M>) -> (Load<Complex<R>, N, M>, Result<(), FftError>), ZR: Fn(usize, Passage, Load<R, N, M>) -> (Load<R, N, M>, Result<(), FftError>), ZC: Fn(usize, Passage, Load<Complex<R>, N, M>) -> (Load<Complex<R>, N, M>, Result<(), FftError>), V: Inspector<R, MixedError, N, M>, const N: usize, const M: usize>(
    there: MixedR2cForwardCrew<R, FR, FX, FC, XR, XC, N, M>,
    home: MixedR2cReverseCrew<R, GR, GX, GC, ZR, ZC, V, N, M>,
    mode: Mode,
    eager: (Seq<bool>, Seq<bool>),
    start: MixedR2cForwardTask<R, N, M>,
    turn: MixedR2cForwardTask<R, N, M>,
    from: MixedR2cReverseTask<R, N, M>,
    end: MixedR2cReverseTask<R, N, M>,
)
    requires
        mode != Mode::InPlace,
        there.able(),
        home.able(),
        mixed_r2c_undone::<R, FR, GR, FX, GX, FC, GC, XR, XC, ZR, ZC, V, N, M>(there, home),
        all_done::<MixedR2cForwardTask<R, N, M>, MixedError, MixedR2cForwardCrew<R, FR, FX, FC, XR, XC, N, M>>(
            there,
            there.core.itinerary().list(Direction::Forward, mode, eager.0),
            start,
            turn,
        ),
        home.source.data@ == turn.0.data@,
        all_done::<MixedR2cReverseTask<R, N, M>, MixedError, MixedR2cReverseCrew<R, GR, GX, GC, ZR, ZC, V, N, M>>(
            home,
            there.core.itinerary().list(home.direction, mode, eager.1),
            from,
            end,
        ),
    ensures
        end.0.data@ == there.source.data@,
{
    let route = there.core.itinerary();
    assert(there.core.stages.len() == there.core.stages@.len());
    route.lemma_forward_walks::<MixedR2cForwardTask<R, N, M>, MixedError, MixedR2cForwardCrew<R, FR, FX, FC, XR, XC, N, M>>(
        there,
        mode,
        eager.0,
        start,
        turn,
    );
    route.lemma_reverse_walks::<MixedR2cReverseTask<R, N, M>, MixedError, MixedR2cReverseCrew<R, GR, GX, GC, ZR, ZC, V, N, M>>(
        home,
        mode,
        eager.1,
        from,
        end,
    );
    let makes_there = route.makes_there::<MixedR2cForwardTask<R, N, M>, MixedError, MixedR2cForwardCrew<R, FR, FX, FC, XR, XC, N, M>>(there, mode, eager.0);
    let makes_home = route.makes_home::<MixedR2cReverseTask<R, N, M>, MixedError, MixedR2cReverseCrew<R, GR, GX, GC, ZR, ZC, V, N, M>>(home, mode, eager.1);
    let moves = route.moves();
    let see_there = |index: int, state: MixedR2cForwardTask<R, N, M>| seen_there(there, moves, index, state);
    let see_home = |index: int, state: MixedR2cReverseTask<R, N, M>| seen_home(home, moves, index, state);
    assert forall|index: int, a: MixedR2cForwardTask<R, N, M>, b: MixedR2cForwardTask<R, N, M>, c: MixedR2cReverseTask<R, N, M>, d: MixedR2cReverseTask<R, N, M>|
        0 <= index < moves && #[trigger] walked(makes_there, index, a, b) && #[trigger] walked(
            makes_home,
            index,
            c,
            d,
        ) && see_home(index + 1, c) == see_there(index + 1, b) implies see_home(index, d)
        == see_there(index, a) by {
        lemma_move_undone::<R, FR, GR, FX, GX, FC, GC, XR, XC, ZR, ZC, V, N, M>(there, home, route, mode, eager, index, a, b, c, d);
    }
    law_way_back(
        makes_there,
        makes_home,
        see_there,
        see_home,
        moves,
        start,
        turn,
        from,
        end,
    );
}

/// A forward execution of a mixed real-to-complex plan out of place and a reverse one of what it
/// made, with kernels and exchanges that undo those of the first, give back the real values, where
/// the endpoint planes that the boundary makes need no clearing.
pub proof fn law_mixed_r2c_round_trip<R: FftReal, FR: Fn(&[R], usize) -> Result<Vec<R>, LocalError>, GR: Fn(&[R], usize) -> Result<Vec<R>, LocalError>, FX: Fn(&[R], usize) -> Result<Vec<Complex<R>>, LocalError>, GX: Fn(&[Complex<R>], usize) -> Result<Vec<R>, LocalError>, FC: Fn(&[Complex<R>], usize) -> Result<Vec<Complex<R>>, LocalError>, GC: Fn(&[Complex<R>], usize) -> Result<Vec<Complex<R>>, LocalError>, XR: Fn(usize, Passage, Load<R, N, M>) -> (Load<R, N, M>, Result<(), FftError>), XC: Fn(usize, Passage, Load<Complex<R>, N, M>) -> (Load<Complex<R>, N, M>, Result<(), FftError>), ZR: Fn(usize, Passage, Load<R, N, M>) -> (Load<R, N, M>, Result<(), FftError>), ZC: Fn(usize, Passage, Load<Complex<R>, N, M>) -> (Load<Complex<R>, N, M>, Result<(), FftError>), V: Inspector<R, MixedError, N, M>, A: Fn(bool) -> bool, B: Fn(bool) -> bool, const N: usize, const M: usize>(
    there: MixedR2cForwardCrew<R, FR, FX, FC, XR, XC, N, M>,
    home: MixedR2cReverseCrew<R, GR, GX, GC, ZR, ZC, V, N, M>,
    agree: (A, B),
    eager: (Seq<bool>, Seq<bool>),
    start: MixedR2cForwardTask<R, N, M>,
    turn: MixedR2cForwardTask<R, N, M>,
    from: MixedR2cReverseTask<R, N, M>,
    end: MixedR2cReverseTask<R, N, M>,
)
    requires
        there.able(),
        home.able(),
        mixed_r2c_undone::<R, FR, GR, FX, GX, FC, GC, XR, XC, ZR, ZC, V, N, M>(there, home),
        steps_run::<MixedR2cForwardTask<R, N, M>, MixedError, InTurn<MixedR2cForwardCrew<R, FR, FX, FC, XR, XC, N, M>>, A>(
            InTurn { crew: &there },
            agree.0,
            there.core.itinerary().list(Direction::Forward, Mode::OutOfPlace, eager.0),
            start,
            turn,
            Ok(()),
        ),
        home.source.data@ == turn.0.data@,
        steps_run::<MixedR2cReverseTask<R, N, M>, MixedError, InTurn<MixedR2cReverseCrew<R, GR, GX, GC, ZR, ZC, V, N, M>>, B>(
            InTurn { crew: &home },
            agree.1,
            there.core.itinerary().list(home.direction, Mode::OutOfPlace, eager.1),
            from,
            end,
            Ok(()),
        ),
    ensures
        end.0.data@ == there.source.data@,
{
    let route = there.core.itinerary();
    let out = route.forward_list(Mode::OutOfPlace, eager.0);
    let back = route.reverse_list(Mode::OutOfPlace, eager.1);
    lemma_pieces_all_done::<MixedR2cForwardTask<R, N, M>, MixedError, MixedR2cForwardCrew<R, FR, FX, FC, XR, XC, N, M>, A>(
        there,
        agree.0,
        out,
        out.len() as int,
        start,
        turn,
    );
    lemma_pieces_all_done::<MixedR2cReverseTask<R, N, M>, MixedError, MixedR2cReverseCrew<R, GR, GX, GC, ZR, ZC, V, N, M>, B>(
        home,
        agree.1,
        back,
        back.len() as int,
        from,
        end,
    );
    assert(out.take(out.len() as int) =~= out);
    assert(back.take(back.len() as int) =~= back);
    law_mixed_r2c_steps_undone::<R, FR, GR, FX, GX, FC, GC, XR, XC, ZR, ZC, V, N, M>(
        there,
        home,
        Mode::OutOfPlace,
        eager,
        start,
        turn,
        from,
        end,
    );
}

/// A forward execution of a mixed real-to-complex plan with overlap that succeeds did all its steps,
/// where work inside an exchange comes to work behind it.
pub proof fn law_mixed_r2c_forward_overlap_does_steps<R: FftReal, FR: Fn(&[R], usize) -> Result<Vec<R>, LocalError>, FX: Fn(&[R], usize) -> Result<Vec<Complex<R>>, LocalError>, FC: Fn(&[Complex<R>], usize) -> Result<Vec<Complex<R>>, LocalError>, XR: Fn(usize, Passage, Load<R, N, M>) -> (Load<R, N, M>, Result<(), FftError>), XC: Fn(usize, Passage, Load<Complex<R>, N, M>) -> (Load<Complex<R>, N, M>, Result<(), FftError>), YR: Fn(usize, Direction, Option<bool>, Load<R, N, M>) -> (Load<R, N, M>, Result<(), OverlapError<MixedError>>), YC: Fn(usize, Direction, Option<bool>, Load<Complex<R>, N, M>) -> (Load<Complex<R>, N, M>, Result<(), OverlapError<MixedError>>), A: Fn(bool) -> bool, const N: usize, const M: usize>(
    crew: MixedR2cForwardOverlapCrew<R, FR, FX, FC, XR, XC, YR, YC, N, M>,
    agree: A,
    steps: Seq<Step>,
    before: MixedR2cForwardTask<R, N, M>,
    after: MixedR2cForwardTask<R, N, M>,
)
    requires
        ran_overlapped::<MixedR2cForwardTask<R, N, M>, MixedError, MixedR2cForwardOverlapCrew<R, FR, FX, FC, XR, XC, YR, YC, N, M>, A>(crew, agree, steps, before, after),
    ensures
        all_done::<MixedR2cForwardTask<R, N, M>, MixedError, MixedR2cForwardCrew<R, FR, FX, FC, XR, XC, N, M>>(crew.crew, steps, before, after),
{
    law_overlap_does_steps::<MixedR2cForwardTask<R, N, M>, MixedError, MixedR2cForwardOverlapCrew<R, FR, FX, FC, XR, XC, YR, YC, N, M>, A>(
        crew,
        agree,
        steps,
        steps.len() as int,
        before,
        after,
    );
    assert(steps.take(steps.len() as int) =~= steps);
    lemma_same_steps::<MixedR2cForwardTask<R, N, M>, MixedError, MixedR2cForwardOverlapCrew<R, FR, FX, FC, XR, XC, YR, YC, N, M>, MixedR2cForwardCrew<R, FR, FX, FC, XR, XC, N, M>>(crew, crew.crew, steps, before, after);
}

/// A reverse execution of a mixed real-to-complex plan with overlap that succeeds did all its steps,
/// where work inside an exchange comes to work behind it.
pub proof fn law_mixed_r2c_reverse_overlap_does_steps<R: FftReal, GR: Fn(&[R], usize) -> Result<Vec<R>, LocalError>, GX: Fn(&[Complex<R>], usize) -> Result<Vec<R>, LocalError>, GC: Fn(&[Complex<R>], usize) -> Result<Vec<Complex<R>>, LocalError>, ZR: Fn(usize, Passage, Load<R, N, M>) -> (Load<R, N, M>, Result<(), FftError>), ZC: Fn(usize, Passage, Load<Complex<R>, N, M>) -> (Load<Complex<R>, N, M>, Result<(), FftError>), V: Inspector<R, MixedError, N, M>, UR: Fn(usize, Direction, Option<bool>, Load<R, N, M>) -> (Load<R, N, M>, Result<(), OverlapError<MixedError>>), UC: Fn(usize, Direction, Option<bool>, Load<Complex<R>, N, M>) -> (Load<Complex<R>, N, M>, Result<(), OverlapError<MixedError>>), A: Fn(bool) -> bool, const N: usize, const M: usize>(
    crew: MixedR2cReverseOverlapCrew<R, GR, GX, GC, ZR, ZC, V, UR, UC, N, M>,
    agree: A,
    steps: Seq<Step>,
    before: MixedR2cReverseTask<R, N, M>,
    after: MixedR2cReverseTask<R, N, M>,
)
    requires
        ran_overlapped::<MixedR2cReverseTask<R, N, M>, MixedError, MixedR2cReverseOverlapCrew<R, GR, GX, GC, ZR, ZC, V, UR, UC, N, M>, A>(crew, agree, steps, before, after),
    ensures
        all_done::<MixedR2cReverseTask<R, N, M>, MixedError, MixedR2cReverseCrew<R, GR, GX, GC, ZR, ZC, V, N, M>>(crew.crew, steps, before, after),
{
    law_overlap_does_steps::<MixedR2cReverseTask<R, N, M>, MixedError, MixedR2cReverseOverlapCrew<R, GR, GX, GC, ZR, ZC, V, UR, UC, N, M>, A>(
        crew,
        agree,
        steps,
        steps.len() as int,
        before,
        after,
    );
    assert(steps.take(steps.len() as int) =~= steps);
    lemma_same_steps::<MixedR2cReverseTask<R, N, M>, MixedError, MixedR2cReverseOverlapCrew<R, GR, GX, GC, ZR, ZC, V, UR, UC, N, M>, MixedR2cReverseCrew<R, GR, GX, GC, ZR, ZC, V, N, M>>(crew, crew.crew, steps, before, after);
}

} // verus!
