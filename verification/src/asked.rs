//! Every plan that was built does along each axis what was asked for.

use vstd::prelude::*;

use crate::boundary::DepthTerm;
use crate::dht_plan::dht_plan_facts;
use crate::dht_plan::without_selection;
use crate::error::BackendInitError;
use crate::error::FftError;
use crate::error::LocalC2cError;
use crate::error::LocalR2cError;
use crate::error::LocalR2rError;
use crate::graph::axis_allowed;
use crate::layout::AxisSelection;
use crate::layout::ExtraShape;
use crate::layout::FourierDirection;
use crate::layout::Pencil;
use crate::layout::TransposeMethod;
use crate::local::AxisR2rKind;
use crate::local::AxisTransform;
use crate::local::BackendChoice;
use crate::local::LocalC2cPlan;
use crate::local::LocalR2cPlan;
use crate::local::LocalR2rPlan;
use crate::local::LocalTransform;
use crate::local::MixedComplexLocal;
use crate::local::MixedR2cStageLocal;
use crate::local::MixedR2rLocal;
use crate::local::MixedRealLocal;
use crate::local::R2rKind;
use crate::local::R2rLocal;
use crate::mixed_build::MixedAsk;
use crate::mixed_build::MixedFacts;
use crate::mixed_c2c::MixedC2cCore;
use crate::mixed_c2c_build::mixed_c2c_built;
use crate::mixed_c2c_build::mixed_c2c_built_in;
use crate::mixed_prepare::mixed_r2c_stage_at;
use crate::mixed_prepare::Planners;
use crate::mixed_r2c::MixedR2cCore;
use crate::mixed_r2c_build::mixed_pair_routed;
use crate::mixed_r2c_build::mixed_r2c_built;
use crate::mixed_r2c_build::mixed_r2c_built_in;
use crate::mixed_r2c_build::mixed_r2c_stages_hold;
use crate::prepare::r2c_stage_at;
use crate::prepare::RouteCandidate;
use crate::prepare::RoutePair;
use crate::r2c::TransformPlanCore;
use crate::r2c_build::r2c_built;
use crate::r2c_build::r2c_built_in;
use crate::r2c_build::r2c_routed;
use crate::r2c_build::r2c_stages_hold;
use crate::r2c_build::R2cFacts;
use crate::r2c_build::R2cPlanners;
use crate::r2r::R2rCore;
use crate::r2r_build::r2r_built;
use crate::r2r_build::r2r_built_in;
use crate::r2r_build::R2rFacts;
use crate::r2r_plan::r2r_plan_facts;
use crate::registry::Stage;
use crate::request::PlanRequest;
use crate::rooms::Rooms;
use crate::scalar::R2rScalar;
use crate::transition::TransitionPlan;
use crate::world::World;

verus! {

/// A real-to-real plan that was built does along each axis what was asked for: nothing exactly
/// where the axis has no kind, else the kernel that the planner gave for that very kind and the
/// extent of the axis. Every process has the whole axis while it is transformed, and the last
/// axis comes first.
pub proof fn law_r2r_kernels_as_asked<V: R2rScalar, H: Fn([u64; 5]) -> bool, D: Fn(Option<Vec<u64>>, Option<usize>) -> Result<Vec<u64>, FftError>, A: Fn(bool) -> bool, P: Fn([usize; N]) -> Result<Pencil<N, M>, FftError>, Q: Fn(Pencil<N, M>, [usize; N], bool) -> Result<RouteCandidate<N, M>, FftError>, T: Fn(&Vec<Stage<N, M>>, &Vec<usize>, &ExtraShape, TransposeMethod, usize) -> Result<TransitionPlan, FftError>, K: Fn(AxisR2rKind, usize) -> Result<LocalR2rPlan, LocalR2rError>, const N: usize, const M: usize>(
    world: World<H, D, A, P, Q, T>,
    planner: K,
    facts: R2rFacts<N, M>,
    id: u64,
    process_grid: [usize; M],
    request: PlanRequest<[Option<R2rKind>; N], N, M>,
    core: R2rCore<N, M>,
    axis: int,
)
    requires
        r2r_plan_facts::<V, N, M>(facts, id, process_grid, request.transform),
        r2r_built(world, planner, facts, request, core),
        0 <= axis < N,
    ensures
        core.stages@.len() == N,
        core.locals@.len() == N,
        core.stages@[N - 1 - axis].axis == axis,
        core.stages@[N - 1 - axis].input.local_shape@[axis] == request.global_shape@[axis],
        core.stages@[N - 1 - axis].output == core.stages@[N - 1 - axis].input,
        forall|d: int|
            0 <= d < M ==> #[trigger] core.stages@[N - 1 - axis].input.decomposition@[d] != axis,
        request.transform@[axis] is None <==> core.locals@[N - 1 - axis] is Identity,
        request.transform@[axis] matches Some(kind) ==> {
            &&& core.locals@[N - 1 - axis] matches R2rLocal::Transform(plan)
            &&& planner.ensures((AxisR2rKind::Fftw(kind), request.global_shape@[axis]), Ok(plan))
        },
{
    let rooms = choose|rooms: Rooms<N, M>| #[trigger]
        r2r_built_in(world, planner, facts, request, rooms, core);
    assert(r2r_built_in(world, planner, facts, request, rooms, core));
    let i = N - 1 - axis;
    assert(core.stages@[i].axis == N - 1 - i);
    assert(core.locals@[i] == core.locals@[i]);
    assert(facts.axis_kinds@[axis] == facts.axis_kinds@[axis]);
    assert forall|d: int| 0 <= d < M implies #[trigger] core.stages@[i].input.decomposition@[d]
        != axis by {
        assert(!core.stages@[i].input.distributes(axis));
    }
}

/// A Hartley plan that was built does along each axis what was asked for: the kernel that the
/// planner gave for the Hartley transform of the axis's extent exactly where the axis is
/// selected, else nothing.
pub proof fn law_dht_kernels_as_asked<V: R2rScalar, H: Fn([u64; 5]) -> bool, D: Fn(Option<Vec<u64>>, Option<usize>) -> Result<Vec<u64>, FftError>, A: Fn(bool) -> bool, P: Fn([usize; N]) -> Result<Pencil<N, M>, FftError>, Q: Fn(Pencil<N, M>, [usize; N], bool) -> Result<RouteCandidate<N, M>, FftError>, T: Fn(&Vec<Stage<N, M>>, &Vec<usize>, &ExtraShape, TransposeMethod, usize) -> Result<TransitionPlan, FftError>, K: Fn(AxisR2rKind, usize) -> Result<LocalR2rPlan, LocalR2rError>, const N: usize, const M: usize>(
    world: World<H, D, A, P, Q, T>,
    planner: K,
    facts: R2rFacts<N, M>,
    id: u64,
    process_grid: [usize; M],
    request: PlanRequest<AxisSelection<N>, N, M>,
    plain: PlanRequest<[Option<R2rKind>; N], N, M>,
    core: R2rCore<N, M>,
    axis: int,
)
    requires
        dht_plan_facts::<V, N, M>(facts, id, process_grid, request.transform),
        without_selection(request, plain),
        r2r_built(world, planner, facts, plain, core),
        0 <= axis < N,
    ensures
        core.stages@.len() == N,
        core.locals@.len() == N,
        core.stages@[N - 1 - axis].axis == axis,
        core.stages@[N - 1 - axis].input.local_shape@[axis] == request.global_shape@[axis],
        !request.transform.mask@[axis] <==> core.locals@[N - 1 - axis] is Identity,
        request.transform.mask@[axis] ==> {
            &&& core.locals@[N - 1 - axis] matches R2rLocal::Hartley(plan)
            &&& planner.ensures((AxisR2rKind::Dht, request.global_shape@[axis]), Ok(plan))
        },
{
    let rooms = choose|rooms: Rooms<N, M>| #[trigger]
        r2r_built_in(world, planner, facts, plain, rooms, core);
    assert(r2r_built_in(world, planner, facts, plain, rooms, core));
    let i = N - 1 - axis;
    assert(core.stages@[i].axis == N - 1 - i);
    assert(core.locals@[i] == core.locals@[i]);
    assert(facts.axis_kinds@[axis] == facts.axis_kinds@[axis]);
}

/// A mixed complex plan that was built does along each axis what was asked for: nothing exactly
/// where the axis is left unchanged; else the kernel that the planner of the chosen backend
/// gave for the extent of the axis, on a Fourier axis with the backward sign exactly where that
/// sign was asked for, on a real-to-real axis for that very kind.
pub proof fn law_mixed_c2c_kernels_as_asked<H: Fn([u64; 5]) -> bool, D: Fn(Option<Vec<u64>>, Option<usize>) -> Result<Vec<u64>, FftError>, A: Fn(bool) -> bool, P: Fn([usize; N]) -> Result<Pencil<N, M>, FftError>, Q: Fn(Pencil<N, M>, [usize; N], bool) -> Result<RouteCandidate<N, M>, FftError>, T: Fn(&Vec<Stage<N, M>>, &Vec<usize>, &ExtraShape, TransposeMethod, usize) -> Result<TransitionPlan, FftError>, C: Fn(BackendChoice, usize, bool) -> Result<LocalC2cPlan, BackendInitError<LocalC2cError>>, K: Fn(BackendChoice, AxisR2rKind, usize) -> Result<LocalR2rPlan, BackendInitError<LocalR2rError>>, B: Fn(BackendChoice, usize) -> Result<LocalR2cPlan, BackendInitError<LocalR2cError>>, const N: usize, const M: usize>(
    world: World<H, D, A, P, Q, T>,
    planners: Planners<C, K, B>,
    facts: MixedFacts<M>,
    request: PlanRequest<MixedAsk<N>, N, M>,
    core: MixedC2cCore<N, M>,
    axis: int,
)
    requires
        mixed_c2c_built(world, planners, facts, request, core),
        0 <= axis < N,
    ensures
        core.stages@.len() == N,
        core.locals@.len() == N,
        core.stages@[N - 1 - axis].axis == axis,
        core.stages@[N - 1 - axis].input.local_shape@[axis] == request.global_shape@[axis],
        core.stages@[N - 1 - axis].output == core.stages@[N - 1 - axis].input,
        forall|d: int|
            0 <= d < M ==> #[trigger] core.stages@[N - 1 - axis].input.decomposition@[d] != axis,
        match request.transform.graph.transforms@[axis] {
            AxisTransform::Unchanged => core.locals@[N - 1 - axis] is Identity,
            AxisTransform::Fft => {
                &&& core.locals@[N - 1 - axis] matches MixedComplexLocal::Fft(plan)
                &&& planners.c2c.ensures(
                    (
                        request.transform.graph.backend,
                        request.global_shape@[axis],
                        request.transform.graph.directions.0@[axis] == FourierDirection::Backward,
                    ),
                    Ok(plan),
                )
            },
            AxisTransform::R2r(AxisR2rKind::Fftw(kind)) => {
                &&& core.locals@[N - 1 - axis] matches MixedComplexLocal::R2r(MixedR2rLocal::Transform(plan))
                &&& planners.r2r.ensures(
                    (
                        request.transform.graph.backend,
                        AxisR2rKind::Fftw(kind),
                        request.global_shape@[axis],
                    ),
                    Ok(plan),
                )
            },
            AxisTransform::R2r(AxisR2rKind::Dht) => {
                &&& core.locals@[N - 1 - axis] matches MixedComplexLocal::R2r(MixedR2rLocal::Hartley(plan))
                &&& planners.r2r.ensures(
                    (
                        request.transform.graph.backend,
                        AxisR2rKind::Dht,
                        request.global_shape@[axis],
                    ),
                    Ok(plan),
                )
            },
            AxisTransform::Rfft => false,
        },
{
    let rooms = choose|rooms: Rooms<N, M>| #[trigger]
        mixed_c2c_built_in(world, planners, facts, request, rooms, core);
    assert(mixed_c2c_built_in(world, planners, facts, request, rooms, core));
    let i = N - 1 - axis;
    assert(core.stages@[i].axis == N - 1 - i);
    assert(core.locals@[i] == core.locals@[i]);
    assert forall|d: int| 0 <= d < M implies #[trigger] core.stages@[i].input.decomposition@[d]
        != axis by {
        assert(!core.stages@[i].input.distributes(axis));
    }
}

/// A mixed plan that was asked for without signs asks the planner of Fourier kernels for the
/// forward sign only.
pub proof fn law_plain_mixed_c2c_goes_forward<H: Fn([u64; 5]) -> bool, D: Fn(Option<Vec<u64>>, Option<usize>) -> Result<Vec<u64>, FftError>, A: Fn(bool) -> bool, P: Fn([usize; N]) -> Result<Pencil<N, M>, FftError>, Q: Fn(Pencil<N, M>, [usize; N], bool) -> Result<RouteCandidate<N, M>, FftError>, T: Fn(&Vec<Stage<N, M>>, &Vec<usize>, &ExtraShape, TransposeMethod, usize) -> Result<TransitionPlan, FftError>, C: Fn(BackendChoice, usize, bool) -> Result<LocalC2cPlan, BackendInitError<LocalC2cError>>, K: Fn(BackendChoice, AxisR2rKind, usize) -> Result<LocalR2rPlan, BackendInitError<LocalR2rError>>, B: Fn(BackendChoice, usize) -> Result<LocalR2cPlan, BackendInitError<LocalR2cError>>, const N: usize, const M: usize>(
    world: World<H, D, A, P, Q, T>,
    planners: Planners<C, K, B>,
    facts: MixedFacts<M>,
    transforms: [AxisTransform; N],
    request: PlanRequest<MixedAsk<N>, N, M>,
    core: MixedC2cCore<N, M>,
    axis: int,
)
    requires
        request.transform.plain(transforms),
        mixed_c2c_built(world, planners, facts, request, core),
        0 <= axis < N,
        transforms@[axis] == AxisTransform::Fft,
    ensures
        core.locals@[N - 1 - axis] matches MixedComplexLocal::Fft(plan) && planners.c2c.ensures(
            (BackendChoice::RustFft, request.global_shape@[axis], false),
            Ok(plan),
        ),
{
    law_mixed_c2c_kernels_as_asked(world, planners, facts, request, core, axis);
    assert(request.transform.graph.directions.0@[axis] == FourierDirection::Forward);
}

/// A mixed real-to-complex plan that was built does along each axis what was asked for: the
/// real kernels of the axes behind the real-to-complex axis come first, then that axis, then
/// the complex kernels of the axes in front of it. An axis has no kernel exactly where it is
/// left unchanged; else it has one that the planner of the chosen backend gave for its extent,
/// on a Fourier axis with the backward sign exactly where that sign was asked for, on a
/// real-to-real axis for that very kind.
pub proof fn law_mixed_r2c_kernels_as_asked<H: Fn([u64; 5]) -> bool, D: Fn(Option<Vec<u64>>, Option<usize>) -> Result<Vec<u64>, FftError>, A: Fn(bool) -> bool, P: Fn([usize; N]) -> Result<Pencil<N, M>, FftError>, Q: Fn(Pencil<N, M>, [usize; N], bool) -> Result<RouteCandidate<N, M>, FftError>, T: Fn(&Vec<Stage<N, M>>, &Vec<usize>, &ExtraShape, TransposeMethod, usize) -> Result<TransitionPlan, FftError>, C: Fn(BackendChoice, usize, bool) -> Result<LocalC2cPlan, BackendInitError<LocalC2cError>>, K: Fn(BackendChoice, AxisR2rKind, usize) -> Result<LocalR2rPlan, BackendInitError<LocalR2rError>>, B: Fn(BackendChoice, usize) -> Result<LocalR2cPlan, BackendInitError<LocalR2cError>>, E: Fn(&Vec<DepthTerm>) -> Result<u64, FftError>, const N: usize, const M: usize>(
    world: World<H, D, A, P, Q, T>,
    planners: Planners<C, K, B>,
    threshold: E,
    facts: MixedFacts<M>,
    request: PlanRequest<MixedAsk<N>, N, M>,
    core: MixedR2cCore<N, M>,
    axis: int,
)
    requires
        mixed_r2c_built(world, planners, threshold, facts, request, core),
        0 <= axis < N,
    ensures
        core.stages@.len() == N,
        core.locals@.len() == N,
        core.stages@[N - 1 - axis].axis == axis,
        request.global_shape@[axis] > 0,
        core.stages@[N - 1 - axis].input.local_shape@[axis] == request.global_shape@[axis],
        core.stages@[N - 1 - axis].output.local_shape@[axis]
            == if request.transform.graph.transforms@[axis] == AxisTransform::Rfft {
            request.global_shape@[axis] as int / 2 + 1
        } else {
            request.global_shape@[axis] as int
        },
        forall|d: int|
            0 <= d < M ==> #[trigger] core.stages@[N - 1 - axis].input.decomposition@[d] != axis,
        forall|d: int|
            0 <= d < M ==> #[trigger] core.stages@[N - 1 - axis].output.decomposition@[d] != axis,
        request.transform.graph.transforms@[axis] == AxisTransform::Rfft <==> N - 1 - axis
            == core.boundary,
        match request.transform.graph.transforms@[axis] {
            AxisTransform::Unchanged => if N - 1 - axis < core.boundary {
                core.locals@[N - 1 - axis] == MixedR2cStageLocal::Real(MixedRealLocal::Identity)
            } else {
                core.locals@[N - 1 - axis] == MixedR2cStageLocal::Complex(MixedComplexLocal::Identity)
            },
            AxisTransform::Rfft => {
                &&& core.locals@[N - 1 - axis] matches MixedR2cStageLocal::Real(MixedRealLocal::Rfft(plan))
                &&& planners.r2c.ensures(
                    (request.transform.graph.backend, request.global_shape@[axis]),
                    Ok(plan),
                )
            },
            AxisTransform::Fft => {
                &&& N - 1 - axis > core.boundary
                &&& core.locals@[N - 1 - axis] matches MixedR2cStageLocal::Complex(MixedComplexLocal::Fft(plan))
                &&& planners.c2c.ensures(
                    (
                        request.transform.graph.backend,
                        request.global_shape@[axis],
                        request.transform.graph.directions.0@[axis] == FourierDirection::Backward,
                    ),
                    Ok(plan),
                )
            },
            AxisTransform::R2r(kind) => exists|plan: LocalR2rPlan|
                {
                    let local = if kind is Dht {
                        MixedR2rLocal::Hartley(plan)
                    } else {
                        MixedR2rLocal::Transform(plan)
                    };
                    &&& #[trigger] planners.r2r.ensures(
                        (request.transform.graph.backend, kind, request.global_shape@[axis]),
                        Ok(plan),
                    )
                    &&& core.locals@[N - 1 - axis] == if N - 1 - axis < core.boundary {
                        MixedR2cStageLocal::Real(MixedRealLocal::R2r(local))
                    } else {
                        MixedR2cStageLocal::Complex(MixedComplexLocal::R2r(local))
                    }
                },
        },
{
    let rooms = choose|rooms: Rooms<N, M>| #[trigger]
        mixed_r2c_built_in(world, planners, threshold, facts, request, rooms, core);
    assert(mixed_r2c_built_in(world, planners, threshold, facts, request, rooms, core));
    let i = N - 1 - axis;
    let at = core.boundary as int;
    let graph = request.transform.graph;
    let routes = choose|routes: RoutePair<N, M>| #[trigger]
        mixed_pair_routed(world, request, N - 1 - at, routes) && mixed_r2c_stages_hold(
            planners,
            routes,
            graph,
            at,
            core.stages@,
            core.locals@,
        );
    assert(mixed_r2c_stage_at(planners, routes, graph, at, i, Ok(core.locals@[i])));
    assert(axis_allowed(graph.transforms@[axis], axis, N - 1 - at));
    assert(core.stages@[i] == routes.stage_at(at, i));
    assert forall|d: int| 0 <= d < M implies #[trigger] core.stages@[i].input.decomposition@[d]
        != axis by {
        assert(!core.stages@[i].input.distributes(axis));
    }
    assert forall|d: int| 0 <= d < M implies #[trigger] core.stages@[i].output.decomposition@[d]
        != axis by {
        assert(!core.stages@[i].output.distributes(axis));
    }
    if let AxisTransform::R2r(kind) = graph.transforms@[axis] {
        let local = match core.locals@[i] {
            MixedR2cStageLocal::Real(MixedRealLocal::R2r(local)) => local,
            MixedR2cStageLocal::Complex(MixedComplexLocal::R2r(local)) => local,
            _ => arbitrary(),
        };
        assert(planners.r2r.ensures((graph.backend, kind, request.global_shape@[axis]), Ok(local.plan())));
    }
}

/// A real-to-complex plan that was built does along each axis what was asked for: nothing along
/// axes that are not selected; along the last selected axis the real-to-complex transform of
/// its extent, which leaves half of it and one more; along the other selected axes the complex
/// transform of their extents.
pub proof fn law_r2c_kernels_as_asked<H: Fn([u64; 5]) -> bool, D: Fn(Option<Vec<u64>>, Option<usize>) -> Result<Vec<u64>, FftError>, A: Fn(bool) -> bool, P: Fn([usize; N]) -> Result<Pencil<N, M>, FftError>, Q: Fn(Pencil<N, M>, [usize; N], bool) -> Result<RouteCandidate<N, M>, FftError>, T: Fn(&Vec<Stage<N, M>>, &Vec<usize>, &ExtraShape, TransposeMethod, usize) -> Result<TransitionPlan, FftError>, X: Fn(usize) -> Result<LocalC2cPlan, LocalC2cError>, Y: Fn(usize) -> Result<LocalR2cPlan, LocalR2cError>, E: Fn(u64, &Vec<usize>) -> Result<u64, FftError>, const N: usize, const M: usize>(
    world: World<H, D, A, P, Q, T>,
    planners: R2cPlanners<X, Y, E>,
    facts: R2cFacts<M>,
    request: PlanRequest<AxisSelection<N>, N, M>,
    core: TransformPlanCore<N, M>,
    axis: int,
)
    requires
        r2c_built(world, planners, facts, request, core),
        core.wf(),
        0 <= axis < N,
    ensures
        core.stages@.len() == N,
        core.locals@.len() == N,
        core.stages@[N - 1 - axis].axis == axis,
        request.transform.mask@[N - 1 - core.boundary],
        axis > N - 1 - core.boundary ==> !request.transform.mask@[axis],
        core.stages@[N - 1 - axis].input.local_shape@[axis] == request.global_shape@[axis],
        forall|d: int|
            0 <= d < M ==> #[trigger] core.stages@[N - 1 - axis].input.decomposition@[d] != axis,
        !request.transform.mask@[axis] <==> core.locals@[N - 1 - axis] is Identity,
        request.transform.mask@[axis] && axis == N - 1 - core.boundary ==> {
            &&& core.locals@[N - 1 - axis] matches LocalTransform::RealComplex(plan)
            &&& planners.r2c.ensures((request.global_shape@[axis],), Ok(plan))
        },
        request.transform.mask@[axis] && axis != N - 1 - core.boundary ==> {
            &&& core.locals@[N - 1 - axis] matches LocalTransform::Complex(plan)
            &&& planners.c2c.ensures((request.global_shape@[axis],), Ok(plan))
        },
{
    let rooms = choose|rooms: Rooms<N, M>| #[trigger]
        r2c_built_in(world, planners, facts, request, rooms, core);
    assert(r2c_built_in(world, planners, facts, request, rooms, core));
    let i = N - 1 - axis;
    let at = core.boundary as int;
    let routes = choose|routes: RoutePair<N, M>| #[trigger] r2c_routed(world, request, N - 1 - at, routes)
        && r2c_stages_hold(
        planners,
        routes,
        request.transform,
        at,
        core.stages@,
        core.locals@,
    );
    assert(r2c_stage_at(
        planners.c2c,
        planners.r2c,
        routes,
        request.transform,
        at,
        i,
        Ok(core.locals@[i]),
    ));
    assert(core.stages@[i] == routes.stage_at(at, i));
    assert forall|d: int| 0 <= d < M implies #[trigger] core.stages@[i].input.decomposition@[d]
        != axis by {
        assert(!core.stages@[i].input.distributes(axis));
    }
}

} // verus!
