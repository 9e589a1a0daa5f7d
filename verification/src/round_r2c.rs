//! What an execution of a real-to-complex plan and its way back leave of the values.

use vstd::prelude::*;

use crate::array::ManyPencilArray;
use crate::carrier::Load;
use crate::crew::all_done;
use crate::crew::lemma_same_steps;
use crate::crew::Crew;
use crate::crew::InTurn;
use crate::crew_r2c::half_load;
use crate::crew_r2c::R2cForwardCrew;
use crate::crew_r2c::R2cForwardOverlapCrew;
use crate::crew_r2c::R2cForwardTask;
use crate::crew_r2c::R2cReverseCrew;
use crate::crew_r2c::R2cReverseOverlapCrew;
use crate::crew_r2c::R2cReverseTask;
use crate::error::FftError;
use crate::error::LocalC2cError;
use crate::error::LocalR2cError;
use crate::error::OverlapError;
use crate::error::R2cError;
use crate::inspect::Inspector;
use crate::kernels::ComplexStation;
use crate::kernels::ForwardCrossing;
use crate::kernels::ReverseCrossing;
use crate::laws::undoes;
use crate::layout::Direction;
use crate::perform::HalfLens;
use crate::r2c::TransformPlanCore;
use crate::round_half::clearing_keeps;
use crate::round_half::converts_lines;
use crate::round_half::half_held;
use crate::round_half::law_crossing_undone;
use crate::round_half::law_tail_station_undone;
use crate::round_half::lemma_forward_maps;
use crate::round_half::lemma_reverse_maps;
use crate::round_half::lies_alike;
use crate::round_half::maps_home;
use crate::round_half::maps_there;
use crate::round_half::HalfValues;
use crate::round_trip::active_values;
use crate::round_trip::exchanges_undone;
use crate::round_trip::kernels_undone;
use crate::round_trip::lemma_exchanged;
use crate::round_trip::lemma_one_done;
use crate::round_trip::lemma_two_done;
use crate::round_trip::maps;
use crate::run::steps_run;
use crate::scalar::Complex;
use crate::scalar::FftReal;
use crate::schedule::copy_step;
use crate::schedule::endpoint_step;
use crate::schedule::exchange_step;
use crate::schedule::Itinerary;
use crate::schedule::Mode;
use crate::schedule::Slot;
use crate::schedule::Step;
use crate::schedule::Work;
use crate::station::CopyStation;
use crate::transition::Passage;
use crate::walk::kept_there;
use crate::walk::law_overlap_does_steps;
use crate::walk::law_way_back;
use crate::walk::lemma_all_done_split;
use crate::walk::lemma_kept_there;
use crate::walk::lemma_pieces_all_done;
use crate::walk::ran_overlapped;
use crate::walk::walked;

verus! {

/// The values in front of move `index` of a forward execution.
pub open spec fn seen_there<R: FftReal, FX, FC, XR, XC, const N: usize, const M: usize>(
    crew: R2cForwardCrew<R, FX, FC, XR, XC, N, M>,
    moves: int,
    index: int,
    state: R2cForwardTask<R, N, M>,
) -> HalfValues<R> {
    if index <= 0 {
        HalfValues::Real(crew.source.data@)
    } else if index >= moves {
        HalfValues::Complex(state.0.data@)
    } else if index <= 2 * crew.core.boundary {
        HalfValues::Real(active_values(state.1.real_intermediate->0))
    } else {
        HalfValues::Complex(active_values(state.1.intermediate))
    }
}

/// The values behind the move of a reverse execution that undoes move `index`.
pub open spec fn seen_home<R: FftReal, GX, GC, ZR, ZC, V, const N: usize, const M: usize>(
    crew: R2cReverseCrew<R, GX, GC, ZR, ZC, V, N, M>,
    moves: int,
    index: int,
    state: R2cReverseTask<R, N, M>,
) -> HalfValues<R> {
    if index >= moves {
        HalfValues::Complex(crew.source.data@)
    } else if index <= 0 {
        HalfValues::Real(state.0.data@)
    } else if index <= 2 * crew.core.boundary {
        HalfValues::Real(active_values(state.1.real_intermediate->0))
    } else {
        HalfValues::Complex(active_values(state.1.intermediate))
    }
}

/// What the boundary may make of real values.
pub open spec fn crossing_makes<R: FftReal, FX: Fn(&[R], usize) -> Result<Vec<Complex<R>>, LocalR2cError>, const N: usize, const M: usize>(
    core: TransformPlanCore<N, M>,
    crossing: FX,
) -> spec_fn(Seq<Complex<R>>) -> bool {
    |values: Seq<Complex<R>>|
        exists|source: Seq<R>, line: usize| #[trigger]
            maps::<R, Complex<R>, R2cError, ForwardCrossing<FX, N, M>>(
                core.spec_forward_crossing(&crossing, line),
                source,
                values,
            )
}

/// A local step of a forward execution that succeeds turns the values in front of it into those
/// behind it. `stage` is that of a kernel, or the first one.
proof fn lemma_local_there<R: FftReal, FX: Fn(&[R], usize) -> Result<Vec<Complex<R>>, LocalR2cError>, FC: Fn(&[Complex<R>], usize) -> Result<Vec<Complex<R>>, LocalC2cError>, XR: Fn(usize, Passage, Load<R, N, M>) -> (Load<R, N, M>, Result<(), FftError>), XC: Fn(usize, Passage, Load<Complex<R>, N, M>) -> (Load<Complex<R>, N, M>, Result<(), FftError>), const N: usize, const M: usize>(
    crew: R2cForwardCrew<R, FX, FC, XR, XC, N, M>,
    step: Step,
    stage: int,
    before: R2cForwardTask<R, N, M>,
    after: R2cForwardTask<R, N, M>,
)
    requires
        step.work == Work::Kernel(stage as usize) || (step.work == Work::Copy && stage == 0),
        0 <= stage < crew.core.stages@.len(),
        crew.core.stages@.len() <= usize::MAX,
        crew.does(step, before, after, Ok(())),
    ensures
        ({
            let given = half_held(
                step.from,
                HalfValues::Real(crew.source.data@),
                half_load(before.1).arrays(),
                HalfValues::Complex(before.0.data@),
            );
            let made = half_held(
                step.to,
                HalfValues::Real(crew.source.data@),
                half_load(after.1).arrays(),
                HalfValues::Complex(after.0.data@),
            );
            match step.work {
                Work::Kernel(_) => maps_there::<R, R2cError, CopyStation, ForwardCrossing<FX, N, M>, ComplexStation<FC, N, M>>(
                    (
                        CopyStation {  },
                        crew.core.spec_forward_crossing(crew.crossing, before.1.complex_line@.len() as usize),
                        crew.core.spec_tail_station(Direction::Forward, step, &crew.kernels@[stage]),
                    ),
                    given,
                    made,
                ),
                _ => made == given,
            }
        }),
{
    lemma_forward_maps::<R, R2cError, CopyStation, ForwardCrossing<FX, N, M>, ComplexStation<FC, N, M>, N, M>(
        (
            CopyStation {  },
            crew.core.spec_forward_crossing(crew.crossing, before.1.complex_line@.len() as usize),
            crew.core.spec_tail_station(Direction::Forward, step, &crew.kernels@[stage]),
        ),
        step,
        crew.core.entries(Direction::Forward),
        crew.source.data@,
        half_load(before.1).arrays(),
        half_load(after.1).arrays(),
        (before.0.data@, after.0.data@),
        (HalfLens {
            crossing: match before.1.real_source_line {
                Some(line) => line@.len() as usize,
                None => 0,
            },
            reals: before.1.real_line@.len() as usize,
            complexes: before.1.complex_strided_line@.len() as usize,
        }),
    );
}

/// A local step of a reverse execution that succeeds turns the values in front of it into those
/// behind it. `stage` is that of a kernel, or the first one.
proof fn lemma_local_home<R: FftReal, GX: Fn(&[Complex<R>], usize) -> Result<Vec<R>, LocalR2cError>, GC: Fn(&[Complex<R>], usize) -> Result<Vec<Complex<R>>, LocalC2cError>, ZR: Fn(usize, Passage, Load<R, N, M>) -> (Load<R, N, M>, Result<(), FftError>), ZC: Fn(usize, Passage, Load<Complex<R>, N, M>) -> (Load<Complex<R>, N, M>, Result<(), FftError>), V: Inspector<R, R2cError, N, M>, const N: usize, const M: usize>(
    crew: R2cReverseCrew<R, GX, GC, ZR, ZC, V, N, M>,
    step: Step,
    stage: int,
    before: R2cReverseTask<R, N, M>,
    after: R2cReverseTask<R, N, M>,
)
    requires
        step.work == Work::Kernel(stage as usize) || (step.work == Work::Copy && stage == 0),
        0 <= stage < crew.core.stages@.len(),
        crew.core.stages@.len() <= usize::MAX,
        crew.does(step, before, after, Ok(())),
    ensures
        ({
            let given = half_held(
                step.from,
                HalfValues::Complex(crew.source.data@),
                half_load(before.1).arrays(),
                HalfValues::Real(before.0.data@),
            );
            let made = half_held(
                step.to,
                HalfValues::Complex(crew.source.data@),
                half_load(after.1).arrays(),
                HalfValues::Real(after.0.data@),
            );
            match step.work {
                Work::Kernel(_) => maps_home::<R, R2cError, CopyStation, ReverseCrossing<GX, N, M>, ComplexStation<GC, N, M>>(
                    (
                        CopyStation {  },
                        crew.core.spec_reverse_crossing(crew.crossing, before.1.real_line@.len() as usize),
                        crew.core.spec_tail_station(Direction::Inverse, step, &crew.kernels@[stage]),
                    ),
                    given,
                    made,
                ),
                _ => made == given,
            }
        }),
{
    lemma_reverse_maps::<R, R2cError, CopyStation, ReverseCrossing<GX, N, M>, ComplexStation<GC, N, M>, N, M>(
        (
            CopyStation {  },
            crew.core.spec_reverse_crossing(crew.crossing, before.1.real_line@.len() as usize),
            crew.core.spec_tail_station(Direction::Inverse, step, &crew.kernels@[stage]),
        ),
        step,
        crew.core.entries(Direction::Inverse),
        crew.source.data@,
        half_load(before.1).arrays(),
        half_load(after.1).arrays(),
        (before.0.data@, after.0.data@),
        (HalfLens {
            crossing: before.1.complex_strided_line@.len() as usize,
            reals: before.1.real_line@.len() as usize,
            complexes: before.1.complex_strided_line@.len() as usize,
        }),
    );
}

/// What a forward execution makes of the values at a stage: the step of its kernel and the buffer
/// for a result line of the boundary tell how.
pub proof fn lemma_stage_there<R: FftReal, FX: Fn(&[R], usize) -> Result<Vec<Complex<R>>, LocalR2cError>, FC: Fn(&[Complex<R>], usize) -> Result<Vec<Complex<R>>, LocalC2cError>, XR: Fn(usize, Passage, Load<R, N, M>) -> (Load<R, N, M>, Result<(), FftError>), XC: Fn(usize, Passage, Load<Complex<R>, N, M>) -> (Load<Complex<R>, N, M>, Result<(), FftError>), const N: usize, const M: usize>(
    crew: R2cForwardCrew<R, FX, FC, XR, XC, N, M>,
    route: Itinerary,
    mode: Mode,
    eager: Seq<bool>,
    stage: int,
    before: R2cForwardTask<R, N, M>,
    after: R2cForwardTask<R, N, M>,
) -> (how: (Step, usize))
    requires
        crew.core.wf(),
        route == crew.core.itinerary(),
        route.wf(),
        mode != Mode::InPlace,
        route.stages == crew.core.stages@.len(),
        0 <= stage <= route.last(),
        all_done::<R2cForwardTask<R, N, M>, R2cError, R2cForwardCrew<R, FX, FC, XR, XC, N, M>>(
            crew,
            route.stage_there(mode, stage, eager),
            before,
            after,
        ),
    ensures
        ({
            let step = how.0;
            let given = seen_there(crew, route.moves(), 2 * stage, before);
            let made = seen_there(crew, route.moves(), 2 * stage + 1, after);
            if stage >= crew.core.boundary {
                &&& step.work == Work::Kernel(stage as usize)
                &&& maps_there::<R, R2cError, CopyStation, ForwardCrossing<FX, N, M>, ComplexStation<FC, N, M>>(
                    (
                        CopyStation {  },
                        crew.core.spec_forward_crossing(crew.crossing, how.1),
                        crew.core.spec_tail_station(Direction::Forward, step, &crew.kernels@[stage]),
                    ),
                    given,
                    made,
                )
            } else {
                made == given
            }
        }),
{
    let list = route.stage_there(mode, stage, eager);
    let agreed = route.kind.spec_agrees();
    let b = route.boundary as int;
    let line = before.1.complex_line@.len() as usize;
    if stage < b {
        if stage == 0 {
            let copy = copy_step(Slot::Source, Slot::Real, agreed);
            assert(list =~= seq![copy]);
            lemma_one_done::<R2cForwardTask<R, N, M>, R2cError, R2cForwardCrew<R, FX, FC, XR, XC, N, M>>(crew, copy, before, after);
            lemma_local_there(crew, copy, 0, before, after);
            return (copy, line);
        }
        assert(list =~= Seq::<Step>::empty());
        return (copy_step(Slot::Source, Slot::Real, agreed), line);
    }
    let work = if stage == 0 {
        route.entry(mode)
    } else {
        route.arrival(mode, stage, eager)
    };
    let step = work[0];
    assert(work =~= seq![step]);
    if stage == route.last() && (mode == Mode::Overlap || stage == b) {
        let copy = copy_step(Slot::Complex, Slot::Destination, false);
        assert(list =~= seq![step, copy]);
        let between = lemma_two_done::<R2cForwardTask<R, N, M>, R2cError, R2cForwardCrew<R, FX, FC, XR, XC, N, M>>(crew, step, copy, before, after);
        lemma_local_there(crew, step, stage, before, between);
        lemma_local_there(crew, copy, 0, between, after);
    } else {
        assert(list =~= seq![step]);
        lemma_one_done::<R2cForwardTask<R, N, M>, R2cError, R2cForwardCrew<R, FX, FC, XR, XC, N, M>>(crew, step, before, after);
        lemma_local_there(crew, step, stage, before, after);
    }
    (step, line)
}

/// What a reverse execution makes of the values at the boundary: the planes are cleared, and the
/// kernel works on what is left.
pub proof fn lemma_boundary_home<R: FftReal, GX: Fn(&[Complex<R>], usize) -> Result<Vec<R>, LocalR2cError>, GC: Fn(&[Complex<R>], usize) -> Result<Vec<Complex<R>>, LocalC2cError>, ZR: Fn(usize, Passage, Load<R, N, M>) -> (Load<R, N, M>, Result<(), FftError>), ZC: Fn(usize, Passage, Load<Complex<R>, N, M>) -> (Load<Complex<R>, N, M>, Result<(), FftError>), V: Inspector<R, R2cError, N, M>, const N: usize, const M: usize>(
    crew: R2cReverseCrew<R, GX, GC, ZR, ZC, V, N, M>,
    route: Itinerary,
    mode: Mode,
    eager: Seq<bool>,
    before: R2cReverseTask<R, N, M>,
    after: R2cReverseTask<R, N, M>,
) -> (how: (
    Step,
    usize,
    ManyPencilArray<Complex<R>, N, M>,
    ManyPencilArray<Complex<R>, N, M>,
))
    requires
        crew.core.wf(),
        route == crew.core.itinerary(),
        route.wf(),
        mode != Mode::InPlace,
        route.stages == crew.core.stages@.len(),
        all_done::<R2cReverseTask<R, N, M>, R2cError, R2cReverseCrew<R, GX, GC, ZR, ZC, V, N, M>>(
            crew,
            route.stage_home(mode, route.boundary as int, eager),
            before,
            after,
        ),
    ensures
        ({
            let stage = route.boundary as int;
            let step = how.0;
            &&& step.work == Work::Kernel(stage as usize)
            &&& seen_home(crew, route.moves(), 2 * stage + 1, before) == HalfValues::Complex(
                active_values(how.2),
            )
            &&& if route.checks_early(mode, stage) && stage < route.last() {
                how.3 == how.2
            } else {
                crew.inspector.clears(how.2, how.3, Ok(()))
            }
            &&& maps_home::<R, R2cError, CopyStation, ReverseCrossing<GX, N, M>, ComplexStation<GC, N, M>>(
                (
                    CopyStation {  },
                    crew.core.spec_reverse_crossing(crew.crossing, how.1),
                    crew.core.spec_tail_station(Direction::Inverse, step, &crew.kernels@[stage]),
                ),
                HalfValues::Complex(active_values(how.3)),
                seen_home(crew, route.moves(), 2 * stage, after),
            )
        }),
{
    let stage = route.boundary as int;
    let list = route.stage_home(mode, stage, eager);
    let agreed = route.kind.spec_agrees();
    let crossing = if stage == route.last() {
        route.crossing(mode, true, agreed, false)
    } else {
        route.return_to(mode, stage, eager)
    };
    let step = crossing.last();
    if route.checks_early(mode, stage) && stage < route.last() {
        assert(list =~= seq![step]);
        lemma_one_done::<R2cReverseTask<R, N, M>, R2cError, R2cReverseCrew<R, GX, GC, ZR, ZC, V, N, M>>(crew, step, before, after);
        lemma_local_home(crew, step, stage, before, after);
        let line = before.1.real_line@.len() as usize;
        return (step, line, before.1.intermediate, before.1.intermediate);
    }
    let (validate, clear) = (crossing[0], crossing[1]);
    let checks = seq![validate, clear];
    assert(crossing =~= checks + seq![step]);
    let entered = if stage == route.last() {
        let copy = copy_step(Slot::Source, Slot::Complex, agreed);
        assert(list =~= seq![copy] + (checks + seq![step]));
        let entered = lemma_all_done_split::<R2cReverseTask<R, N, M>, R2cError, R2cReverseCrew<R, GX, GC, ZR, ZC, V, N, M>>(
            crew,
            seq![copy],
            checks + seq![step],
            before,
            after,
        );
        lemma_one_done::<R2cReverseTask<R, N, M>, R2cError, R2cReverseCrew<R, GX, GC, ZR, ZC, V, N, M>>(crew, copy, before, entered);
        lemma_local_home(crew, copy, 0, before, entered);
        entered
    } else {
        assert(list =~= checks + seq![step]);
        before
    };
    let cleared = lemma_all_done_split::<R2cReverseTask<R, N, M>, R2cError, R2cReverseCrew<R, GX, GC, ZR, ZC, V, N, M>>(
        crew,
        checks,
        seq![step],
        entered,
        after,
    );
    let checked = lemma_two_done::<R2cReverseTask<R, N, M>, R2cError, R2cReverseCrew<R, GX, GC, ZR, ZC, V, N, M>>(crew, validate, clear, entered, cleared);
    lemma_one_done::<R2cReverseTask<R, N, M>, R2cError, R2cReverseCrew<R, GX, GC, ZR, ZC, V, N, M>>(crew, step, cleared, after);
    lemma_local_home(crew, step, stage, cleared, after);
    let line = cleared.1.real_line@.len() as usize;
    (step, line, checked.1.intermediate, cleared.1.intermediate)
}

/// What a reverse execution makes of the values at a stage other than the boundary.
pub proof fn lemma_stage_home<R: FftReal, GX: Fn(&[Complex<R>], usize) -> Result<Vec<R>, LocalR2cError>, GC: Fn(&[Complex<R>], usize) -> Result<Vec<Complex<R>>, LocalC2cError>, ZR: Fn(usize, Passage, Load<R, N, M>) -> (Load<R, N, M>, Result<(), FftError>), ZC: Fn(usize, Passage, Load<Complex<R>, N, M>) -> (Load<Complex<R>, N, M>, Result<(), FftError>), V: Inspector<R, R2cError, N, M>, const N: usize, const M: usize>(
    crew: R2cReverseCrew<R, GX, GC, ZR, ZC, V, N, M>,
    route: Itinerary,
    mode: Mode,
    eager: Seq<bool>,
    stage: int,
    before: R2cReverseTask<R, N, M>,
    after: R2cReverseTask<R, N, M>,
) -> (how: (Step, usize))
    requires
        crew.core.wf(),
        route == crew.core.itinerary(),
        route.wf(),
        mode != Mode::InPlace,
        route.stages == crew.core.stages@.len(),
        0 <= stage <= route.last(),
        stage != route.boundary,
        all_done::<R2cReverseTask<R, N, M>, R2cError, R2cReverseCrew<R, GX, GC, ZR, ZC, V, N, M>>(
            crew,
            route.stage_home(mode, stage, eager),
            before,
            after,
        ),
    ensures
        ({
            let step = how.0;
            let given = seen_home(crew, route.moves(), 2 * stage + 1, before);
            let made = seen_home(crew, route.moves(), 2 * stage, after);
            if stage >= crew.core.boundary {
                &&& step.work == Work::Kernel(stage as usize)
                &&& maps_home::<R, R2cError, CopyStation, ReverseCrossing<GX, N, M>, ComplexStation<GC, N, M>>(
                    (
                        CopyStation {  },
                        crew.core.spec_reverse_crossing(crew.crossing, how.1),
                        crew.core.spec_tail_station(Direction::Inverse, step, &crew.kernels@[stage]),
                    ),
                    given,
                    made,
                )
            } else {
                made == given
            }
        }),
{
    let list = route.stage_home(mode, stage, eager);
    let b = route.boundary as int;
    let line = before.1.real_line@.len() as usize;
    if stage < b {
        let copy = copy_step(Slot::Real, Slot::Destination, false);
        if stage == 0 {
            assert(list =~= seq![copy]);
            lemma_one_done::<R2cReverseTask<R, N, M>, R2cError, R2cReverseCrew<R, GX, GC, ZR, ZC, V, N, M>>(crew, copy, before, after);
            lemma_local_home(crew, copy, 0, before, after);
        } else {
            assert(list =~= Seq::<Step>::empty());
        }
        return (copy, line);
    }
    let work = if stage == route.last() {
        route.reverse_entry(mode)
    } else {
        route.return_to(mode, stage, eager)
    };
    let step = work[0];
    assert(work =~= seq![step]);
    assert(list =~= seq![step]);
    lemma_one_done::<R2cReverseTask<R, N, M>, R2cError, R2cReverseCrew<R, GX, GC, ZR, ZC, V, N, M>>(crew, step, before, after);
    lemma_local_home(crew, step, stage, before, after);
    (step, line)
}

/// The kernels and exchanges of the way back undo those of the way there, and the endpoint planes
/// that the boundary makes need no clearing.
pub open spec fn r2c_undone<R: FftReal, FX: Fn(&[R], usize) -> Result<Vec<Complex<R>>, LocalR2cError>, GX: Fn(&[Complex<R>], usize) -> Result<Vec<R>, LocalR2cError>, FC: Fn(&[Complex<R>], usize) -> Result<Vec<Complex<R>>, LocalC2cError>, GC: Fn(&[Complex<R>], usize) -> Result<Vec<Complex<R>>, LocalC2cError>, XR: Fn(usize, Passage, Load<R, N, M>) -> (Load<R, N, M>, Result<(), FftError>), XC: Fn(usize, Passage, Load<Complex<R>, N, M>) -> (Load<Complex<R>, N, M>, Result<(), FftError>), ZR: Fn(usize, Passage, Load<R, N, M>) -> (Load<R, N, M>, Result<(), FftError>), ZC: Fn(usize, Passage, Load<Complex<R>, N, M>) -> (Load<Complex<R>, N, M>, Result<(), FftError>), V: Inspector<R, R2cError, N, M>, const N: usize, const M: usize>(
    there: R2cForwardCrew<R, FX, FC, XR, XC, N, M>,
    home: R2cReverseCrew<R, GX, GC, ZR, ZC, V, N, M>,
) -> bool {
    let plan = there.core.plan();
    &&& *home.core == *there.core
    &&& home.direction != Direction::Forward
    &&& lies_alike(there.core.stages@)
    &&& kernels_undone::<Complex<R>, LocalC2cError, FC, GC>(there.kernels@, home.kernels@)
    &&& undoes::<R, Complex<R>, LocalR2cError, FX, GX>(*there.crossing, *home.crossing)
    &&& converts_lines::<R, Complex<R>, LocalR2cError, FX>(
        *there.crossing,
        plan.real_len as int,
        plan.complex_len as int,
    )
    &&& converts_lines::<Complex<R>, R, LocalR2cError, GX>(
        *home.crossing,
        plan.complex_len as int,
        plan.real_len as int,
    )
    &&& exchanges_undone::<R, XR, ZR, N, M>(
        *there.real_exchange,
        *home.real_exchange,
        there.core.transitions@,
        home.direction,
    )
    &&& exchanges_undone::<Complex<R>, XC, ZC, N, M>(
        *there.exchange,
        *home.exchange,
        there.core.transitions@,
        home.direction,
    )
    &&& clearing_keeps::<R, R2cError, V, N, M>(
        *home.inspector,
        crossing_makes::<R, FX, N, M>(*there.core, *there.crossing),
    )
}

/// What an exchange behind the boundary may make of what the boundary makes.
pub open spec fn exchanged_makes<R: FftReal, FX: Fn(&[R], usize) -> Result<Vec<Complex<R>>, LocalR2cError>, FC: Fn(&[Complex<R>], usize) -> Result<Vec<Complex<R>>, LocalC2cError>, XR: Fn(usize, Passage, Load<R, N, M>) -> (Load<R, N, M>, Result<(), FftError>), XC: Fn(usize, Passage, Load<Complex<R>, N, M>) -> (Load<Complex<R>, N, M>, Result<(), FftError>), const N: usize, const M: usize>(
    there: R2cForwardCrew<R, FX, FC, XR, XC, N, M>,
) -> spec_fn(Seq<Complex<R>>) -> bool {
    let edge = there.core.boundary;
    |values: Seq<Complex<R>>|
        exists|before: Load<Complex<R>, N, M>, after: Load<Complex<R>, N, M>|
            {
                &&& #[trigger] there.exchange.ensures(
                    (
                        edge,
                        there.core.transitions@[edge as int].spec_passage(Direction::Forward),
                        before,
                    ),
                    (after, Ok(())),
                )
                &&& crossing_makes::<R, FX, N, M>(*there.core, *there.crossing)(
                    active_values(before.0),
                )
                &&& values == active_values(after.0)
            }
}

/// The endpoint planes need no clearing in front of the exchange that leads back to the boundary.
pub open spec fn clearing_keeps_exchanged<R: FftReal, FX: Fn(&[R], usize) -> Result<Vec<Complex<R>>, LocalR2cError>, GX: Fn(&[Complex<R>], usize) -> Result<Vec<R>, LocalR2cError>, FC: Fn(&[Complex<R>], usize) -> Result<Vec<Complex<R>>, LocalC2cError>, GC: Fn(&[Complex<R>], usize) -> Result<Vec<Complex<R>>, LocalC2cError>, XR: Fn(usize, Passage, Load<R, N, M>) -> (Load<R, N, M>, Result<(), FftError>), XC: Fn(usize, Passage, Load<Complex<R>, N, M>) -> (Load<Complex<R>, N, M>, Result<(), FftError>), ZR: Fn(usize, Passage, Load<R, N, M>) -> (Load<R, N, M>, Result<(), FftError>), ZC: Fn(usize, Passage, Load<Complex<R>, N, M>) -> (Load<Complex<R>, N, M>, Result<(), FftError>), V: Inspector<R, R2cError, N, M>, const N: usize, const M: usize>(
    there: R2cForwardCrew<R, FX, FC, XR, XC, N, M>,
    home: R2cReverseCrew<R, GX, GC, ZR, ZC, V, N, M>,
) -> bool {
    clearing_keeps::<R, R2cError, V, N, M>(
        *home.inspector,
        exchanged_makes::<R, FX, FC, XR, XC, N, M>(there),
    )
}

/// What is exchanged behind the boundary is what the boundary made.
pub open spec fn boundary_made<R: FftReal, FX: Fn(&[R], usize) -> Result<Vec<Complex<R>>, LocalR2cError>, FC: Fn(&[Complex<R>], usize) -> Result<Vec<Complex<R>>, LocalC2cError>, XR: Fn(usize, Passage, Load<R, N, M>) -> (Load<R, N, M>, Result<(), FftError>), XC: Fn(usize, Passage, Load<Complex<R>, N, M>) -> (Load<Complex<R>, N, M>, Result<(), FftError>), const N: usize, const M: usize>(
    there: R2cForwardCrew<R, FX, FC, XR, XC, N, M>,
    route: Itinerary,
    index: int,
    state: R2cForwardTask<R, N, M>,
) -> bool {
    index == 2 * route.boundary + 1 && index < route.moves() ==> crossing_makes::<R, FX, N, M>(
        *there.core,
        *there.crossing,
    )(active_values(state.1.intermediate))
}

proof fn lemma_move_undone<R: FftReal, FX: Fn(&[R], usize) -> Result<Vec<Complex<R>>, LocalR2cError>, GX: Fn(&[Complex<R>], usize) -> Result<Vec<R>, LocalR2cError>, FC: Fn(&[Complex<R>], usize) -> Result<Vec<Complex<R>>, LocalC2cError>, GC: Fn(&[Complex<R>], usize) -> Result<Vec<Complex<R>>, LocalC2cError>, XR: Fn(usize, Passage, Load<R, N, M>) -> (Load<R, N, M>, Result<(), FftError>), XC: Fn(usize, Passage, Load<Complex<R>, N, M>) -> (Load<Complex<R>, N, M>, Result<(), FftError>), ZR: Fn(usize, Passage, Load<R, N, M>) -> (Load<R, N, M>, Result<(), FftError>), ZC: Fn(usize, Passage, Load<Complex<R>, N, M>) -> (Load<Complex<R>, N, M>, Result<(), FftError>), V: Inspector<R, R2cError, N, M>, const N: usize, const M: usize>(
    there: R2cForwardCrew<R, FX, FC, XR, XC, N, M>,
    home: R2cReverseCrew<R, GX, GC, ZR, ZC, V, N, M>,
    route: Itinerary,
    mode: Mode,
    eager: (Seq<bool>, Seq<bool>),
    index: int,
    a: R2cForwardTask<R, N, M>,
    b: R2cForwardTask<R, N, M>,
    c: R2cReverseTask<R, N, M>,
    d: R2cReverseTask<R, N, M>,
)
    requires
        there.able(),
        home.able(),
        r2c_undone::<R, FX, GX, FC, GC, XR, XC, ZR, ZC, V, N, M>(there, home),
        route == there.core.itinerary(),
        route.wf(),
        mode != Mode::InPlace,
        route.stages == there.core.stages@.len(),
        0 <= index < route.moves(),
        mode == Mode::Overlap ==> clearing_keeps_exchanged::<R, FX, GX, FC, GC, XR, XC, ZR, ZC, V, N, M>(there, home),
        boundary_made(there, route, index, a),
        all_done::<R2cForwardTask<R, N, M>, R2cError, R2cForwardCrew<R, FX, FC, XR, XC, N, M>>(
            there,
            route.move_there(mode, index, eager.0),
            a,
            b,
        ),
        all_done::<R2cReverseTask<R, N, M>, R2cError, R2cReverseCrew<R, GX, GC, ZR, ZC, V, N, M>>(
            home,
            route.move_home(mode, index, eager.1),
            c,
            d,
        ),
        seen_home(home, route.moves(), index + 1, c) == seen_there(
            there,
            route.moves(),
            index + 1,
            b,
        ),
    ensures
        seen_home(home, route.moves(), index, d) == seen_there(there, route.moves(), index, a),
{
    let stage = index / 2;
    let edge = route.boundary as int;
    if index % 2 == 0 {
        assert(index == 2 * stage);
        let out = lemma_stage_there(there, route, mode, eager.0, stage, a, b);
        assert(there.core.stages@[stage].input.stride_along(there.core.stages@[stage].axis as int)
            == there.core.stages@[stage].output.stride_along(
            there.core.stages@[stage].axis as int,
        ));
        if stage == edge {
            let back = lemma_boundary_home(home, route, mode, eager.1, c, d);
            let crossing = there.core.spec_forward_crossing(there.crossing, out.1);
            let given = seen_there(there, route.moves(), index, a);
            let made = seen_there(there, route.moves(), index + 1, b);
            assert(given is Real && made is Complex);
            assert(maps::<R, Complex<R>, R2cError, ForwardCrossing<FX, N, M>>(
                crossing,
                given->Real_0,
                made->Complex_0,
            ));
            assert(crossing_makes::<R, FX, N, M>(*there.core, *there.crossing)(
                active_values(back.2),
            ));
            assert(active_values(back.3) == active_values(back.2));
            law_crossing_undone::<R, FX, GX, N, M>(
                crossing,
                home.core.spec_reverse_crossing(home.crossing, back.1),
            );
        } else {
            let back = lemma_stage_home(home, route, mode, eager.1, stage, c, d);
            if stage > edge {
                law_tail_station_undone::<Complex<R>, FC, GC, N, M>(
                    there.core.spec_tail_station(Direction::Forward, out.0, &there.kernels@[stage]),
                    home.core.spec_tail_station(Direction::Inverse, back.0, &home.kernels@[stage]),
                );
            }
        }
    } else {
        let at = route.carries_in(stage);
        let step = exchange_step(stage, at, mode, route.kind.spec_agrees());
        assert(index == 2 * stage + 1);
        assert(route.move_there(mode, index, eager.0) =~= seq![step]);
        lemma_one_done::<R2cForwardTask<R, N, M>, R2cError, R2cForwardCrew<R, FX, FC, XR, XC, N, M>>(there, step, a, b);
        let list = route.move_home(mode, index, eager.1);
        let sent = if route.checks_early(mode, stage) {
            let validate = endpoint_step(Work::Validate, false, false);
            let clear = endpoint_step(Work::Clear, false, false);
            assert(list =~= seq![validate, clear] + seq![step]);
            let sent = lemma_all_done_split::<R2cReverseTask<R, N, M>, R2cError, R2cReverseCrew<R, GX, GC, ZR, ZC, V, N, M>>(
                home,
                seq![validate, clear],
                seq![step],
                c,
                d,
            );
            let checked = lemma_two_done::<R2cReverseTask<R, N, M>, R2cError, R2cReverseCrew<R, GX, GC, ZR, ZC, V, N, M>>(home, validate, clear, c, sent);
            lemma_one_done::<R2cReverseTask<R, N, M>, R2cError, R2cReverseCrew<R, GX, GC, ZR, ZC, V, N, M>>(home, step, sent, d);
            let (la, lb) = (half_load(a.1), half_load(b.1));
            lemma_exchanged::<Complex<R>, R2cError, XC, N, M>(
                *there.exchange,
                there.core.transitions@,
                Direction::Forward,
                stage as usize,
                (la.complexes, la.buffers),
                (lb.complexes, lb.buffers),
            );
            assert(exchanged_makes::<R, FX, FC, XR, XC, N, M>(there)(
                active_values(c.1.intermediate),
            ));
            sent
        } else {
            assert(list =~= seq![step]);
            lemma_one_done::<R2cReverseTask<R, N, M>, R2cError, R2cReverseCrew<R, GX, GC, ZR, ZC, V, N, M>>(home, step, c, d);
            c
        };
        let (la, lb) = (half_load(a.1), half_load(b.1));
        let (lc, ld) = (half_load(sent.1), half_load(d.1));
        if at == Slot::Real {
            lemma_exchanged::<R, R2cError, XR, N, M>(
                *there.real_exchange,
                there.core.transitions@,
                Direction::Forward,
                stage as usize,
                (la.reals->0, la.real_buffers->0),
                (lb.reals->0, lb.real_buffers->0),
            );
            lemma_exchanged::<R, R2cError, ZR, N, M>(
                *home.real_exchange,
                home.core.transitions@,
                home.direction,
                stage as usize,
                (lc.reals->0, lc.real_buffers->0),
                (ld.reals->0, ld.real_buffers->0),
            );
        } else {
            lemma_exchanged::<Complex<R>, R2cError, XC, N, M>(
                *there.exchange,
                there.core.transitions@,
                Direction::Forward,
                stage as usize,
                (la.complexes, la.buffers),
                (lb.complexes, lb.buffers),
            );
            lemma_exchanged::<Complex<R>, R2cError, ZC, N, M>(
                *home.exchange,
                home.core.transitions@,
                home.direction,
                stage as usize,
                (lc.complexes, lc.buffers),
                (ld.complexes, ld.buffers),
            );
        }
    }
}

/// The boundary of a forward execution makes what is exchanged behind it.
pub proof fn lemma_boundary_made<R: FftReal, FX: Fn(&[R], usize) -> Result<Vec<Complex<R>>, LocalR2cError>, FC: Fn(&[Complex<R>], usize) -> Result<Vec<Complex<R>>, LocalC2cError>, XR: Fn(usize, Passage, Load<R, N, M>) -> (Load<R, N, M>, Result<(), FftError>), XC: Fn(usize, Passage, Load<Complex<R>, N, M>) -> (Load<Complex<R>, N, M>, Result<(), FftError>), const N: usize, const M: usize>(
    there: R2cForwardCrew<R, FX, FC, XR, XC, N, M>,
    route: Itinerary,
    mode: Mode,
    eager: Seq<bool>,
    index: int,
    before: R2cForwardTask<R, N, M>,
    after: R2cForwardTask<R, N, M>,
)
    requires
        there.core.wf(),
        route == there.core.itinerary(),
        route.wf(),
        mode != Mode::InPlace,
        route.stages == there.core.stages@.len(),
        0 <= index < route.moves(),
        all_done::<R2cForwardTask<R, N, M>, R2cError, R2cForwardCrew<R, FX, FC, XR, XC, N, M>>(there, route.move_there(mode, index, eager), before, after),
    ensures
        boundary_made(there, route, index + 1, after),
{
    let stage = index / 2;
    if index == 2 * route.boundary {
        let out = lemma_stage_there(there, route, mode, eager, stage, before, after);
        let given = seen_there(there, route.moves(), index, before);
        let made = seen_there(there, route.moves(), index + 1, after);
        assert(given is Real);
        if index + 1 < route.moves() {
            assert(maps::<R, Complex<R>, R2cError, ForwardCrossing<FX, N, M>>(
                there.core.spec_forward_crossing(there.crossing, out.1),
                given->Real_0,
                made->Complex_0,
            ));
        }
    }
}

/// The steps of a forward execution and of a reverse one of what it made give back the values.
proof fn lemma_steps_undone<R: FftReal, FX: Fn(&[R], usize) -> Result<Vec<Complex<R>>, LocalR2cError>, GX: Fn(&[Complex<R>], usize) -> Result<Vec<R>, LocalR2cError>, FC: Fn(&[Complex<R>], usize) -> Result<Vec<Complex<R>>, LocalC2cError>, GC: Fn(&[Complex<R>], usize) -> Result<Vec<Complex<R>>, LocalC2cError>, XR: Fn(usize, Passage, Load<R, N, M>) -> (Load<R, N, M>, Result<(), FftError>), XC: Fn(usize, Passage, Load<Complex<R>, N, M>) -> (Load<Complex<R>, N, M>, Result<(), FftError>), ZR: Fn(usize, Passage, Load<R, N, M>) -> (Load<R, N, M>, Result<(), FftError>), ZC: Fn(usize, Passage, Load<Complex<R>, N, M>) -> (Load<Complex<R>, N, M>, Result<(), FftError>), V: Inspector<R, R2cError, N, M>, const N: usize, const M: usize>(
    there: R2cForwardCrew<R, FX, FC, XR, XC, N, M>,
    home: R2cReverseCrew<R, GX, GC, ZR, ZC, V, N, M>,
    mode: Mode,
    eager: (Seq<bool>, Seq<bool>),
    start: R2cForwardTask<R, N, M>,
    turn: R2cForwardTask<R, N, M>,
    from: R2cReverseTask<R, N, M>,
    end: R2cReverseTask<R, N, M>,
)
    requires
        mode != Mode::InPlace,
        there.able(),
        home.able(),
        r2c_undone::<R, FX, GX, FC, GC, XR, XC, ZR, ZC, V, N, M>(there, home),
        mode == Mode::Overlap ==> clearing_keeps_exchanged::<R, FX, GX, FC, GC, XR, XC, ZR, ZC, V, N, M>(there, home),
        all_done::<R2cForwardTask<R, N, M>, R2cError, R2cForwardCrew<R, FX, FC, XR, XC, N, M>>(
            there,
            there.core.itinerary().list(Direction::Forward, mode, eager.0),
            start,
            turn,
        ),
        home.source.data@ == turn.0.data@,
        all_done::<R2cReverseTask<R, N, M>, R2cError, R2cReverseCrew<R, GX, GC, ZR, ZC, V, N, M>>(
            home,
            there.core.itinerary().list(home.direction, mode, eager.1),
            from,
            end,
        ),
    ensures
        end.0.data@ == there.source.data@,
{
    let route = there.core.itinerary();
    assert(there.core.stages.len() == there.core.stages@.len());
    route.lemma_forward_walks::<R2cForwardTask<R, N, M>, R2cError, R2cForwardCrew<R, FX, FC, XR, XC, N, M>>(
        there,
        mode,
        eager.0,
        start,
        turn,
    );
    route.lemma_reverse_walks::<R2cReverseTask<R, N, M>, R2cError, R2cReverseCrew<R, GX, GC, ZR, ZC, V, N, M>>(
        home,
        mode,
        eager.1,
        from,
        end,
    );
    let makes_there = route.makes_there::<R2cForwardTask<R, N, M>, R2cError, R2cForwardCrew<R, FX, FC, XR, XC, N, M>>(there, mode, eager.0);
    let makes_home = route.makes_home::<R2cReverseTask<R, N, M>, R2cError, R2cReverseCrew<R, GX, GC, ZR, ZC, V, N, M>>(home, mode, eager.1);
    let moves = route.moves();
    let see_there = |index: int, state: R2cForwardTask<R, N, M>| seen_there(there, moves, index, state);
    let see_home = |index: int, state: R2cReverseTask<R, N, M>| seen_home(home, moves, index, state);
    let made_there = |index: int, state: R2cForwardTask<R, N, M>| boundary_made(there, route, index, state);
    assert forall|index: int, a: R2cForwardTask<R, N, M>, b: R2cForwardTask<R, N, M>|
        0 <= index < moves && #[trigger] walked(makes_there, index, a, b) && made_there(
            index,
            a,
        ) implies made_there(index + 1, b) by {
        lemma_boundary_made(there, route, mode, eager.0, index, a, b);
    }
    lemma_kept_there(makes_there, made_there, moves, start, turn);
    let kept = kept_there(makes_there, made_there);
    assert forall|index: int, a: R2cForwardTask<R, N, M>, b: R2cForwardTask<R, N, M>, c: R2cReverseTask<R, N, M>, d: R2cReverseTask<R, N, M>|
        0 <= index < moves && #[trigger] walked(kept, index, a, b) && #[trigger] walked(
            makes_home,
            index,
            c,
            d,
        ) && see_home(index + 1, c) == see_there(index + 1, b) implies see_home(index, d)
        == see_there(index, a) by {
        assert(walked(makes_there, index, a, b));
        lemma_move_undone::<R, FX, GX, FC, GC, XR, XC, ZR, ZC, V, N, M>(there, home, route, mode, eager, index, a, b, c, d);
    }
    law_way_back(
        kept,
        makes_home,
        see_there,
        see_home,
        moves,
        start,
        turn,
        from,
        end,
    );
}

/// A forward execution of a real-to-complex plan out of place and a reverse one of what it made,
/// with kernels and exchanges that undo those of the first, give back the real values, where the
/// endpoint planes that the boundary makes need no clearing.
pub proof fn law_r2c_round_trip<R: FftReal, FX: Fn(&[R], usize) -> Result<Vec<Complex<R>>, LocalR2cError>, GX: Fn(&[Complex<R>], usize) -> Result<Vec<R>, LocalR2cError>, FC: Fn(&[Complex<R>], usize) -> Result<Vec<Complex<R>>, LocalC2cError>, GC: Fn(&[Complex<R>], usize) -> Result<Vec<Complex<R>>, LocalC2cError>, XR: Fn(usize, Passage, Load<R, N, M>) -> (Load<R, N, M>, Result<(), FftError>), XC: Fn(usize, Passage, Load<Complex<R>, N, M>) -> (Load<Complex<R>, N, M>, Result<(), FftError>), ZR: Fn(usize, Passage, Load<R, N, M>) -> (Load<R, N, M>, Result<(), FftError>), ZC: Fn(usize, Passage, Load<Complex<R>, N, M>) -> (Load<Complex<R>, N, M>, Result<(), FftError>), V: Inspector<R, R2cError, N, M>, A: Fn(bool) -> bool, B: Fn(bool) -> bool, const N: usize, const M: usize>(
    there: R2cForwardCrew<R, FX, FC, XR, XC, N, M>,
    home: R2cReverseCrew<R, GX, GC, ZR, ZC, V, N, M>,
    agree: (A, B),
    eager: (Seq<bool>, Seq<bool>),
    start: R2cForwardTask<R, N, M>,
    turn: R2cForwardTask<R, N, M>,
    from: R2cReverseTask<R, N, M>,
    end: R2cReverseTask<R, N, M>,
)
    requires
        there.able(),
        home.able(),
        r2c_undone::<R, FX, GX, FC, GC, XR, XC, ZR, ZC, V, N, M>(there, home),
        steps_run::<R2cForwardTask<R, N, M>, R2cError, InTurn<R2cForwardCrew<R, FX, FC, XR, XC, N, M>>, A>(
            InTurn { crew: &there },
            agree.0,
            there.core.itinerary().list(Direction::Forward, Mode::OutOfPlace, eager.0),
            start,
            turn,
            Ok(()),
        ),
        home.source.data@ == turn.0.data@,
        steps_run::<R2cReverseTask<R, N, M>, R2cError, InTurn<R2cReverseCrew<R, GX, GC, ZR, ZC, V, N, M>>, B>(
            InTurn { crew: &home },
            agree.1,
            there.core.itinerary().list(home.direction, Mode::OutOfPlace, eager.1),
            from,
            end,
            Ok(()),
        ),
    ensures
        end.0.data@ == there.source.data@,
{
    let route = there.core.itinerary();
    let out = route.forward_list(Mode::OutOfPlace, eager.0);
    let back = route.reverse_list(Mode::OutOfPlace, eager.1);
    lemma_pieces_all_done::<R2cForwardTask<R, N, M>, R2cError, R2cForwardCrew<R, FX, FC, XR, XC, N, M>, A>(
        there,
        agree.0,
        out,
        out.len() as int,
        start,
        turn,
    );
    lemma_pieces_all_done::<R2cReverseTask<R, N, M>, R2cError, R2cReverseCrew<R, GX, GC, ZR, ZC, V, N, M>, B>(
        home,
        agree.1,
        back,
        back.len() as int,
        from,
        end,
    );
    assert(out.take(out.len() as int) =~= out);
    assert(back.take(back.len() as int) =~= back);
    lemma_steps_undone::<R, FX, GX, FC, GC, XR, XC, ZR, ZC, V, N, M>(
        there,
        home,
        Mode::OutOfPlace,
        eager,
        start,
        turn,
        from,
        end,
    );
}

/// A forward execution of a real-to-complex plan with overlap and a reverse one of what it made,
/// with kernels and exchanges that undo those of the first, give back the real values, where work
/// inside an exchange comes to work behind it and the endpoint planes need no clearing.
pub proof fn law_r2c_round_trip_overlapped<R: FftReal, FX: Fn(&[R], usize) -> Result<Vec<Complex<R>>, LocalR2cError>, GX: Fn(&[Complex<R>], usize) -> Result<Vec<R>, LocalR2cError>, FC: Fn(&[Complex<R>], usize) -> Result<Vec<Complex<R>>, LocalC2cError>, GC: Fn(&[Complex<R>], usize) -> Result<Vec<Complex<R>>, LocalC2cError>, XR: Fn(usize, Passage, Load<R, N, M>) -> (Load<R, N, M>, Result<(), FftError>), XC: Fn(usize, Passage, Load<Complex<R>, N, M>) -> (Load<Complex<R>, N, M>, Result<(), FftError>), ZR: Fn(usize, Passage, Load<R, N, M>) -> (Load<R, N, M>, Result<(), FftError>), ZC: Fn(usize, Passage, Load<Complex<R>, N, M>) -> (Load<Complex<R>, N, M>, Result<(), FftError>), V: Inspector<R, R2cError, N, M>, YR: Fn(usize, Direction, Option<bool>, Load<R, N, M>) -> (Load<R, N, M>, Result<(), OverlapError<R2cError>>), YC: Fn(usize, Direction, Option<bool>, Load<Complex<R>, N, M>) -> (Load<Complex<R>, N, M>, Result<(), OverlapError<R2cError>>), UR: Fn(usize, Direction, Option<bool>, Load<R, N, M>) -> (Load<R, N, M>, Result<(), OverlapError<R2cError>>), UC: Fn(usize, Direction, Option<bool>, Load<Complex<R>, N, M>) -> (Load<Complex<R>, N, M>, Result<(), OverlapError<R2cError>>), A: Fn(bool) -> bool, B: Fn(bool) -> bool, const N: usize, const M: usize>(
    there: R2cForwardOverlapCrew<R, FX, FC, XR, XC, YR, YC, N, M>,
    home: R2cReverseOverlapCrew<R, GX, GC, ZR, ZC, V, UR, UC, N, M>,
    agree: (A, B),
    eager: (Seq<bool>, Seq<bool>),
    start: R2cForwardTask<R, N, M>,
    turn: R2cForwardTask<R, N, M>,
    from: R2cReverseTask<R, N, M>,
    end: R2cReverseTask<R, N, M>,
)
    requires
        r2c_undone::<R, FX, GX, FC, GC, XR, XC, ZR, ZC, V, N, M>(there.crew, home.crew),
        clearing_keeps_exchanged::<R, FX, GX, FC, GC, XR, XC, ZR, ZC, V, N, M>(there.crew, home.crew),
        ran_overlapped::<R2cForwardTask<R, N, M>, R2cError, R2cForwardOverlapCrew<R, FX, FC, XR, XC, YR, YC, N, M>, A>(
            there,
            agree.0,
            there.crew.core.itinerary().list(Direction::Forward, Mode::Overlap, eager.0),
            start,
            turn,
        ),
        home.crew.source.data@ == turn.0.data@,
        ran_overlapped::<R2cReverseTask<R, N, M>, R2cError, R2cReverseOverlapCrew<R, GX, GC, ZR, ZC, V, UR, UC, N, M>, B>(
            home,
            agree.1,
            there.crew.core.itinerary().list(home.crew.direction, Mode::Overlap, eager.1),
            from,
            end,
        ),
    ensures
        end.0.data@ == there.crew.source.data@,
{
    let route = there.crew.core.itinerary();
    let out = route.forward_list(Mode::Overlap, eager.0);
    let back = route.reverse_list(Mode::Overlap, eager.1);
    law_overlap_does_steps::<R2cForwardTask<R, N, M>, R2cError, R2cForwardOverlapCrew<R, FX, FC, XR, XC, YR, YC, N, M>, A>(
        there,
        agree.0,
        out,
        out.len() as int,
        start,
        turn,
    );
    law_overlap_does_steps::<R2cReverseTask<R, N, M>, R2cError, R2cReverseOverlapCrew<R, GX, GC, ZR, ZC, V, UR, UC, N, M>, B>(
        home,
        agree.1,
        back,
        back.len() as int,
        from,
        end,
    );
    assert(out.take(out.len() as int) =~= out);
    assert(back.take(back.len() as int) =~= back);
    lemma_same_steps::<R2cForwardTask<R, N, M>, R2cError, R2cForwardOverlapCrew<R, FX, FC, XR, XC, YR, YC, N, M>, R2cForwardCrew<R, FX, FC, XR, XC, N, M>>(there, there.crew, out, start, turn);
    lemma_same_steps::<R2cReverseTask<R, N, M>, R2cError, R2cReverseOverlapCrew<R, GX, GC, ZR, ZC, V, UR, UC, N, M>, R2cReverseCrew<R, GX, GC, ZR, ZC, V, N, M>>(home, home.crew, back, from, end);
    lemma_steps_undone::<R, FX, GX, FC, GC, XR, XC, ZR, ZC, V, N, M>(
        there.crew,
        home.crew,
        Mode::Overlap,
        eager,
        start,
        turn,
        from,
        end,
    );
}

} // verus!
