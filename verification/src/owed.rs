//! When a plan is owed: where every question of its construction is answered and there is room for
//! its lists.

use vstd::prelude::*;

use crate::boundary::DepthTerm;
use crate::error::BackendInitError;
use crate::error::FftError;
use crate::error::LocalC2cError;
use crate::error::LocalR2cError;
use crate::error::LocalR2rError;
use crate::error::MixedError;
use crate::error::R2cError;
use crate::error::R2rError;
use crate::graph::axis_allowed;
use crate::graph::axis_is_local;
use crate::graph::r2c_graph;
use crate::layout::AxisSelection;
use crate::layout::Pencil;
use crate::layout::TransposeMethod;
use crate::layout::ExtraShape;
use crate::local::AxisR2rKind;
use crate::local::AxisTransform;
use crate::local::BackendChoice;
use crate::local::LocalC2cPlan;
use crate::local::LocalR2cPlan;
use crate::local::LocalR2rPlan;
use crate::local::MixedR2rLocal;
use crate::local::R2rKind;
use crate::local::spec_mixed_c2c_local;
use crate::local::spec_mixed_r2c_local;
use crate::local::spec_mixed_r2r_local;
use crate::mixed_build::MixedAsk;
use crate::mixed_build::MixedFacts;
use crate::mixed_c2c_build::c2c_graph_given;
use crate::mixed_c2c_build::mixed_c2c_refused_in;
use crate::mixed_c2c_build::mixed_c2c_unrouted;
use crate::mixed_c2c_build::mixed_routed;
use crate::mixed_c2c_build::signs_given;
use crate::mixed_prepare::MixedR2cStages;
use crate::mixed_prepare::Planners;
use crate::mixed_prepare::c2c_planned;
use crate::mixed_prepare::mixed_c2c_stage_at;
use crate::mixed_prepare::mixed_r2c_stage_at;
use crate::mixed_prepare::r2c_planned;
use crate::mixed_prepare::r2r_planned;
use crate::mixed_r2c_build::boundary_given;
use crate::mixed_r2c_build::mixed_axis_refused;
use crate::mixed_r2c_build::mixed_layouts_refused;
use crate::mixed_r2c_build::mixed_lists_refused;
use crate::mixed_r2c_build::mixed_pair_refused;
use crate::mixed_r2c_build::mixed_pair_routed;
use crate::mixed_r2c_build::mixed_r2c_refused_in;
use crate::mixed_r2c_build::mixed_r2c_stages_given;
use crate::mixed_r2c_build::mixed_r2c_unbuilt;
use crate::mixed_r2c_build::mixed_routes_refused;
use crate::mixed_r2c_build::mixed_stages_refused;
use crate::mixed_r2c_build::unplaced;
use crate::prepare::R2rStages;
use crate::prepare::RouteCandidate;
use crate::prepare::RoutePair;
use crate::prepare::StagePreparation;
use crate::prepare::r2c_stage_at;
use crate::prepare::r2r_stage_at;
use crate::r2c_build::R2cFacts;
use crate::r2c_build::R2cPlanners;
use crate::r2c_build::r2c_axis_refused;
use crate::r2c_build::r2c_join_refused;
use crate::r2c_build::r2c_planners_answer;
use crate::r2c_build::r2c_refused_in;
use crate::r2c_build::r2c_routed;
use crate::r2c_build::r2c_routes_refused;
use crate::r2c_build::r2c_stages_given;
use crate::r2c_build::r2c_unrouted;
use crate::r2c_build::reduced_extents;
use crate::r2c_build::reduced_input_given;
use crate::r2c_build::selects_none;
use crate::r2c_build::unplaced_c2c;
use crate::r2r::unplaced_stage;
use crate::r2r_build::R2rFacts;
use crate::r2r_build::kinds_given;
use crate::r2r_build::r2r_refused_in;
use crate::r2r_build::r2r_routed;
use crate::r2r_build::r2r_staged;
use crate::r2r_build::r2r_unbuilt;
use crate::r2r_build::r2r_unjoined;
use crate::registry::Stage;
use crate::request::PlanRequest;
use crate::rooms::Rooms;
use crate::run::agreed;
use crate::success::goes_on;
use crate::transition::TransitionPlan;
use crate::world::canonical;
use crate::world::World;

verus! {

/// A route leads through all axes from the last to the first: each stage has its axis whole, with
/// lines that can be placed, and neighbours are joined by an exchange.
pub open spec fn leads_through<const N: usize, const M: usize>(
    route: RouteCandidate<N, M>,
    shape: Seq<usize>,
) -> bool {
    &&& route.stages@.len() == N
    &&& route.distributed@.len() == N - 1
    &&& forall|i: int|
        0 <= i < N ==> axis_is_local(#[trigger] route.stages@[i], N - 1 - i, shape[N - 1 - i] as int)
            && route.stages@[i].stride_along(N - 1 - i) is Some
}

/// Every question that a construction asks around is answered: the processes have the same words and
/// go on, there are canonical layouts and routes through all axes, and there are exchanges.
pub open spec fn world_serves<H: Fn([u64; 5]) -> bool, D: Fn(Option<Vec<u64>>, Option<usize>) -> Result<Vec<u64>, FftError>, A: Fn(bool) -> bool, P: Fn([usize; N]) -> Result<Pencil<N, M>, FftError>, Q: Fn(Pencil<N, M>, [usize; N], bool) -> Result<RouteCandidate<N, M>, FftError>, T: Fn(&Vec<Stage<N, M>>, &Vec<usize>, &ExtraShape, TransposeMethod, usize) -> Result<TransitionPlan, FftError>, const N: usize, const M: usize>(
    world: World<H, D, A, P, Q, T>,
) -> bool {
    &&& forall|words: [u64; 5], same: bool| #[trigger]
        world.header.ensures((words,), same) ==> same
    &&& forall|words: Vec<u64>, len: Option<usize>, agreed: Result<Vec<u64>, FftError>| #[trigger]
        world.descriptor.ensures((Some(words), len), agreed) ==> agreed is Ok
    &&& goes_on(world.agree)
    &&& forall|shape: [usize; N], found: Result<Pencil<N, M>, FftError>| #[trigger]
        world.pencil.ensures((shape,), found) ==> (found matches Ok(pencil) && canonical(
            pencil,
            shape,
        ))
    &&& forall|
        input: Pencil<N, M>,
        shape: [usize; N],
        permute: bool,
        found: Result<RouteCandidate<N, M>, FftError>,
    | #[trigger]
        world.route.ensures((input, shape, permute), found) ==> (found matches Ok(route)
            && leads_through(route, shape@))
    &&& forall|
        stages: &Vec<Stage<N, M>>,
        distributed: &Vec<usize>,
        extra_shape: &ExtraShape,
        method: TransposeMethod,
        boundary: usize,
        found: Result<TransitionPlan, FftError>,
    | #[trigger]
        world.transitions.ensures((stages, distributed, extra_shape, method, boundary), found)
            ==> found is Ok
}

/// The planners of a real-to-complex plan give every kernel and the threshold.
pub open spec fn r2c_planners_serve<X: Fn(usize) -> Result<LocalC2cPlan, LocalC2cError>, Y: Fn(usize) -> Result<LocalR2cPlan, LocalR2cError>, E: Fn(u64, &Vec<usize>) -> Result<u64, FftError>>(
    planners: R2cPlanners<X, Y, E>,
) -> bool {
    &&& forall|n: usize, planned: Result<LocalC2cPlan, LocalC2cError>| #[trigger]
        planners.c2c.ensures((n,), planned) ==> planned is Ok
    &&& forall|n: usize, planned: Result<LocalR2cPlan, LocalR2cError>| #[trigger]
        planners.r2c.ensures((n,), planned) ==> planned is Ok
    &&& forall|depth: u64, extents: &Vec<usize>, found: Result<u64, FftError>| #[trigger]
        planners.threshold.ensures((depth, extents), found) ==> found is Ok
}

proof fn lemma_r2c_routes_serve<H: Fn([u64; 5]) -> bool, D: Fn(Option<Vec<u64>>, Option<usize>) -> Result<Vec<u64>, FftError>, A: Fn(bool) -> bool, P: Fn([usize; N]) -> Result<Pencil<N, M>, FftError>, Q: Fn(Pencil<N, M>, [usize; N], bool) -> Result<RouteCandidate<N, M>, FftError>, T: Fn(&Vec<Stage<N, M>>, &Vec<usize>, &ExtraShape, TransposeMethod, usize) -> Result<TransitionPlan, FftError>, X: Fn(usize) -> Result<LocalC2cPlan, LocalC2cError>, Y: Fn(usize) -> Result<LocalR2cPlan, LocalR2cError>, E: Fn(u64, &Vec<usize>) -> Result<u64, FftError>, const N: usize, const M: usize>(
    world: World<H, D, A, P, Q, T>,
    planners: R2cPlanners<X, Y, E>,
    request: PlanRequest<AxisSelection<N>, N, M>,
    rooms: Rooms<N, M>,
    axis: int,
    routes: RoutePair<N, M>,
    error: R2cError,
)
    requires
        world_serves(world),
        r2c_planners_serve(planners),
        rooms.stages is Some,
        rooms.dimensions is Some,
        0 <= axis < N,
        r2c_routed(world, request, axis, routes),
    ensures
        !r2c_routes_refused(world, planners, request, rooms, axis, routes, error),
{
    let boundary = N - 1 - axis;
    assert(leads_through(routes.original_route, routes.original_shape@));
    assert(leads_through(routes.reduced_route, routes.reduced_shape@)) by {
        let (input, reduced) = choose|input: Pencil<N, M>, reduced: [usize; N]|
            {
                &&& reduced_input_given(
                    world,
                    request.global_shape@,
                    axis,
                    Ok(input),
                )
                &&& reduced@ == reduced_extents(request.global_shape@, axis)
                &&& #[trigger] world.route.ensures(
                    (input, reduced, request.layout.permute_dims),
                    Ok(routes.reduced_route),
                )
            };
        assert(reduced@ == routes.reduced_shape@);
    }
    assert forall|i: int, failed: R2cError| 0 <= i < N implies !#[trigger] r2c_stage_at(
        planners.c2c,
        planners.r2c,
        routes,
        request.transform,
        boundary,
        i,
        Err(failed),
    ) by {
        assert(routes.original_route.stages@[i].stride_along(N - 1 - i) is Some);
        assert(routes.reduced_route.stages@[i].stride_along(N - 1 - i) is Some);
    }
    assert forall|prepared: StagePreparation<N, M>|
        r2c_stages_given(
            planners,
            routes,
            request.transform,
            boundary,
            true,
            Ok(prepared),
        ) implies !#[trigger] r2c_join_refused(
            world,
            request,
            axis,
            routes,
            prepared,
            true,
            error,
        ) by {
        assert forall|i: int| 0 <= i < N implies !#[trigger] unplaced_c2c(
            prepared.stages@,
            prepared.locals@,
            i,
        ) by {
            assert(prepared.stages@[i] == routes.stage_at(boundary, i));
            assert(routes.original_route.stages@[i].stride_along(N - 1 - i) is Some);
            assert(routes.reduced_route.stages@[i].stride_along(N - 1 - i) is Some);
        }
    }
}

/// A real-to-complex plan of at least one axis is owed where every question is answered and there is
/// room for its lists.
pub proof fn law_r2c_plan_owed<H: Fn([u64; 5]) -> bool, D: Fn(Option<Vec<u64>>, Option<usize>) -> Result<Vec<u64>, FftError>, A: Fn(bool) -> bool, P: Fn([usize; N]) -> Result<Pencil<N, M>, FftError>, Q: Fn(Pencil<N, M>, [usize; N], bool) -> Result<RouteCandidate<N, M>, FftError>, T: Fn(&Vec<Stage<N, M>>, &Vec<usize>, &ExtraShape, TransposeMethod, usize) -> Result<TransitionPlan, FftError>, X: Fn(usize) -> Result<LocalC2cPlan, LocalC2cError>, Y: Fn(usize) -> Result<LocalR2cPlan, LocalR2cError>, E: Fn(u64, &Vec<usize>) -> Result<u64, FftError>, const N: usize, const M: usize>(
    world: World<H, D, A, P, Q, T>,
    planners: R2cPlanners<X, Y, E>,
    facts: R2cFacts<M>,
    request: PlanRequest<AxisSelection<N>, N, M>,
    rooms: Rooms<N, M>,
    error: R2cError,
)
    requires
        world_serves(world),
        request.input matches Some(input) ==> canonical(input, request.global_shape),
        r2c_planners_answer(planners),
        r2c_planners_serve(planners),
        !selects_none(request.transform),
        rooms.words is Some,
        rooms.stages is Some,
        rooms.dimensions is Some,
    ensures
        !r2c_refused_in(world, planners, facts, request, rooms, error),
{
    assert forall|axis: int| 0 <= axis < N implies !#[trigger] r2c_axis_refused(
        world,
        planners,
        request,
        rooms,
        axis,
        error,
    ) by {
        assert forall|routes: RoutePair<N, M>| #[trigger]
            r2c_routed(world, request, axis, routes) implies !r2c_routes_refused(
            world,
            planners,
            request,
            rooms,
            axis,
            routes,
            error,
        ) by {
            lemma_r2c_routes_serve(world, planners, request, rooms, axis, routes, error);
        }
        assert(!r2c_unrouted(world, request, axis, error));
    }
}

/// The planner of a real-to-real or Hartley plan gives every kernel.
pub open spec fn r2r_planner_serves<K: Fn(AxisR2rKind, usize) -> Result<LocalR2rPlan, LocalR2rError>>(
    planner: K,
) -> bool {
    forall|kind: AxisR2rKind, n: usize, planned: Result<LocalR2rPlan, LocalR2rError>| #[trigger]
        planner.ensures((kind, n), planned) ==> planned is Ok
}

/// A real-to-real or Hartley plan is owed where every question is answered, there is room for its
/// lists, and each kind has the length that it needs.
pub proof fn law_r2r_plan_owed<H: Fn([u64; 5]) -> bool, D: Fn(Option<Vec<u64>>, Option<usize>) -> Result<Vec<u64>, FftError>, A: Fn(bool) -> bool, P: Fn([usize; N]) -> Result<Pencil<N, M>, FftError>, Q: Fn(Pencil<N, M>, [usize; N], bool) -> Result<RouteCandidate<N, M>, FftError>, T: Fn(&Vec<Stage<N, M>>, &Vec<usize>, &ExtraShape, TransposeMethod, usize) -> Result<TransitionPlan, FftError>, K: Fn(AxisR2rKind, usize) -> Result<LocalR2rPlan, LocalR2rError>, const N: usize, const M: usize>(
    world: World<H, D, A, P, Q, T>,
    planner: K,
    facts: R2rFacts<N, M>,
    request: PlanRequest<[Option<R2rKind>; N], N, M>,
    rooms: Rooms<N, M>,
    error: R2rError,
)
    requires
        world_serves(world),
        request.input matches Some(input) ==> canonical(input, request.global_shape),
        r2r_planner_serves(planner),
        kinds_given(request, Ok(())),
        rooms.words is Some,
        rooms.stages is Some,
    ensures
        !r2r_refused_in(world, planner, facts, request, rooms, error),
{
    assert forall|route: RouteCandidate<N, M>| #[trigger]
        r2r_routed(world, request, Ok(route)) implies leads_through(route, request.global_shape@) by {}
    assert forall|route: RouteCandidate<N, M>, i: int, failed: R2rError|
        0 <= i < N && leads_through(route, request.global_shape@) implies !#[trigger] r2r_stage_at(
        planner,
        route.stages@,
        request.global_shape@,
        facts.axis_kinds@,
        i,
        Err(failed),
    ) by {
        assert(route.stages@[i].stride_along(N - 1 - i) is Some);
    }
    assert forall|route: RouteCandidate<N, M>, prepared: R2rStages<N, M>| #[trigger]
        r2r_staged(world, planner, facts, request, route, true, Ok(prepared)) implies !r2r_unjoined(
        world,
        request,
        route,
        prepared,
        error,
    ) by {
        assert forall|i: int| 0 <= i < N implies !#[trigger] unplaced_stage(
            prepared.stages@,
            prepared.locals@,
            i,
        ) by {
            assert(route.stages@[i].stride_along(N - 1 - i) is Some);
        }
    }
    assert(!r2r_unbuilt(world, planner, facts, request, rooms, error));
}

/// A planner of a mixed plan fails with `error`.
pub open spec fn planner_fails<C: Fn(BackendChoice, usize, bool) -> Result<LocalC2cPlan, BackendInitError<LocalC2cError>>, K: Fn(BackendChoice, AxisR2rKind, usize) -> Result<LocalR2rPlan, BackendInitError<LocalR2rError>>, B: Fn(BackendChoice, usize) -> Result<LocalR2cPlan, BackendInitError<LocalR2cError>>>(
    planners: Planners<C, K, B>,
    backend: BackendChoice,
    error: BackendInitError<MixedError>,
) -> bool {
    ||| exists|
        len: usize,
        backward: bool,
        planned: Result<LocalC2cPlan, BackendInitError<LocalC2cError>>,
    | #[trigger]
        c2c_planned(planners, backend, len, backward, planned) && spec_mixed_c2c_local(planned)
            == Err::<LocalC2cPlan, BackendInitError<MixedError>>(error)
    ||| exists|
        kind: AxisR2rKind,
        len: usize,
        planned: Result<LocalR2rPlan, BackendInitError<LocalR2rError>>,
    | #[trigger]
        r2r_planned(planners, backend, kind, len, planned) && spec_mixed_r2r_local(kind, planned)
            == Err::<MixedR2rLocal, BackendInitError<MixedError>>(error)
    ||| exists|len: usize, planned: Result<LocalR2cPlan, BackendInitError<LocalR2cError>>|
        #[trigger]
        r2c_planned(planners, backend, len, planned) && spec_mixed_r2c_local(planned) == Err::<
            LocalR2cPlan,
            BackendInitError<MixedError>,
        >(error)
}

/// Where every other question is answered and there is room, a mixed complex plan is refused with
/// the error of a planner alone: it is owed if the planners give every kernel.
pub proof fn law_mixed_c2c_plan_owed<H: Fn([u64; 5]) -> bool, D: Fn(Option<Vec<u64>>, Option<usize>) -> Result<Vec<u64>, FftError>, A: Fn(bool) -> bool, P: Fn([usize; N]) -> Result<Pencil<N, M>, FftError>, Q: Fn(Pencil<N, M>, [usize; N], bool) -> Result<RouteCandidate<N, M>, FftError>, T: Fn(&Vec<Stage<N, M>>, &Vec<usize>, &ExtraShape, TransposeMethod, usize) -> Result<TransitionPlan, FftError>, C: Fn(BackendChoice, usize, bool) -> Result<LocalC2cPlan, BackendInitError<LocalC2cError>>, K: Fn(BackendChoice, AxisR2rKind, usize) -> Result<LocalR2rPlan, BackendInitError<LocalR2rError>>, B: Fn(BackendChoice, usize) -> Result<LocalR2cPlan, BackendInitError<LocalR2cError>>, const N: usize, const M: usize>(
    world: World<H, D, A, P, Q, T>,
    planners: Planners<C, K, B>,
    facts: MixedFacts<M>,
    request: PlanRequest<MixedAsk<N>, N, M>,
    rooms: Rooms<N, M>,
    error: BackendInitError<MixedError>,
)
    requires
        world_serves(world),
        request.input matches Some(input) ==> canonical(input, request.global_shape),
        c2c_graph_given(request.transform.graph, Ok(())),
        signs_given(request.transform.graph, Ok(())),
        rooms.words is Some,
        rooms.stages is Some,
        rooms.complex_pencils is Some,
        mixed_c2c_refused_in(world, planners, facts, request, rooms, error),
    ensures
        planner_fails(planners, request.transform.graph.backend, error),
{
    let graph = request.transform.graph;
    assert forall|route: RouteCandidate<N, M>| #[trigger]
        mixed_routed(world, request, Ok(route)) implies leads_through(route, request.global_shape@) by {}
    assert forall|route: RouteCandidate<N, M>, i: int, failed: BackendInitError<MixedError>|
        0 <= i < N && leads_through(route, request.global_shape@) && #[trigger] mixed_c2c_stage_at(
            planners,
            route.stages@,
            request.global_shape@,
            graph,
            i,
            Err(failed),
        ) implies planner_fails(planners, graph.backend, failed) by {
        assert(route.stages@[i].stride_along(N - 1 - i) is Some);
        assert(graph.transforms@[N - 1 - i] != AxisTransform::Rfft);
    }
    assert(mixed_c2c_unrouted(world, planners, request, rooms, error));
}

proof fn lemma_mixed_routes_serve<H: Fn([u64; 5]) -> bool, D: Fn(Option<Vec<u64>>, Option<usize>) -> Result<Vec<u64>, FftError>, A: Fn(bool) -> bool, P: Fn([usize; N]) -> Result<Pencil<N, M>, FftError>, Q: Fn(Pencil<N, M>, [usize; N], bool) -> Result<RouteCandidate<N, M>, FftError>, T: Fn(&Vec<Stage<N, M>>, &Vec<usize>, &ExtraShape, TransposeMethod, usize) -> Result<TransitionPlan, FftError>, C: Fn(BackendChoice, usize, bool) -> Result<LocalC2cPlan, BackendInitError<LocalC2cError>>, K: Fn(BackendChoice, AxisR2rKind, usize) -> Result<LocalR2rPlan, BackendInitError<LocalR2rError>>, B: Fn(BackendChoice, usize) -> Result<LocalR2cPlan, BackendInitError<LocalR2cError>>, E: Fn(&Vec<DepthTerm>) -> Result<u64, FftError>, const N: usize, const M: usize>(
    world: World<H, D, A, P, Q, T>,
    planners: Planners<C, K, B>,
    threshold: E,
    request: PlanRequest<MixedAsk<N>, N, M>,
    axis: int,
    routes: RoutePair<N, M>,
    rooms: Rooms<N, M>,
    error: BackendInitError<MixedError>,
)
    requires
        world_serves(world),
        forall|terms: &Vec<DepthTerm>, found: Result<u64, FftError>| #[trigger]
            threshold.ensures((terms,), found) ==> found is Ok,
        rooms.stages is Some,
        rooms.copies is Some,
        rooms.dimensions is Some,
        rooms.real_pencils is Some,
        rooms.complex_pencils is Some,
        r2c_graph(request.global_shape@, request.transform.graph.transforms@, axis),
        mixed_pair_routed(world, request, axis, routes),
        mixed_routes_refused(
            world,
            planners,
            threshold,
            request,
            N - 1 - axis,
            routes,
            rooms,
            error,
        ),
    ensures
        planner_fails(planners, request.transform.graph.backend, error),
{
    let graph = request.transform.graph;
    let boundary = N - 1 - axis;
    assert(leads_through(routes.original_route, routes.original_shape@));
    assert(leads_through(routes.reduced_route, routes.reduced_shape@)) by {
        let (input, reduced) = choose|input: Pencil<N, M>, reduced: [usize; N]|
            {
                &&& reduced_input_given(world, request.global_shape@, axis, Ok(input))
                &&& reduced@ == reduced_extents(request.global_shape@, axis)
                &&& #[trigger] world.route.ensures(
                    (input, reduced, request.layout.permute_dims),
                    Ok(routes.reduced_route),
                )
            };
        assert(reduced@ == routes.reduced_shape@);
    }
    assert forall|i: int, failed: BackendInitError<MixedError>|
        0 <= i < N && #[trigger] mixed_r2c_stage_at(
            planners,
            routes,
            graph,
            boundary,
            i,
            Err(failed),
        ) implies planner_fails(planners, graph.backend, failed) by {
        assert(routes.original_route.stages@[i].stride_along(N - 1 - i) is Some);
        assert(routes.reduced_route.stages@[i].stride_along(N - 1 - i) is Some);
        assert(axis_allowed(graph.transforms@[N - 1 - i], N - 1 - i, axis));
    }
    assert forall|prepared: MixedR2cStages<N, M>|
        mixed_r2c_stages_given(
            planners,
            routes,
            graph,
            boundary,
            true,
            Ok(prepared),
        ) implies !#[trigger] mixed_stages_refused(
        world,
        threshold,
        request,
        boundary,
        routes,
        prepared,
        rooms,
        error,
    ) by {
        assert forall|i: int| 0 <= i < N implies !#[trigger] unplaced(prepared.stages@, i) by {
            assert(prepared.stages@[i] == routes.stage_at(boundary, i));
            assert(routes.original_route.stages@[i].stride_along(N - 1 - i) is Some);
            assert(routes.reduced_route.stages@[i].stride_along(N - 1 - i) is Some);
        }
        assert(!mixed_layouts_refused(world.agree, boundary, prepared, rooms, error));
        assert(!mixed_lists_refused(world, request, boundary, routes, prepared, rooms, error));
    }
}

/// Where every other question is answered and there is room, a mixed real-to-complex plan is refused
/// with the error of a planner alone: it is owed if the planners give every kernel.
pub proof fn law_mixed_r2c_plan_owed<H: Fn([u64; 5]) -> bool, D: Fn(Option<Vec<u64>>, Option<usize>) -> Result<Vec<u64>, FftError>, A: Fn(bool) -> bool, P: Fn([usize; N]) -> Result<Pencil<N, M>, FftError>, Q: Fn(Pencil<N, M>, [usize; N], bool) -> Result<RouteCandidate<N, M>, FftError>, T: Fn(&Vec<Stage<N, M>>, &Vec<usize>, &ExtraShape, TransposeMethod, usize) -> Result<TransitionPlan, FftError>, C: Fn(BackendChoice, usize, bool) -> Result<LocalC2cPlan, BackendInitError<LocalC2cError>>, K: Fn(BackendChoice, AxisR2rKind, usize) -> Result<LocalR2rPlan, BackendInitError<LocalR2rError>>, B: Fn(BackendChoice, usize) -> Result<LocalR2cPlan, BackendInitError<LocalR2cError>>, E: Fn(&Vec<DepthTerm>) -> Result<u64, FftError>, const N: usize, const M: usize>(
    world: World<H, D, A, P, Q, T>,
    planners: Planners<C, K, B>,
    threshold: E,
    facts: MixedFacts<M>,
    request: PlanRequest<MixedAsk<N>, N, M>,
    axis: int,
    rooms: Rooms<N, M>,
    error: BackendInitError<MixedError>,
)
    requires
        world_serves(world),
        request.input matches Some(input) ==> canonical(input, request.global_shape),
        forall|terms: &Vec<DepthTerm>, found: Result<u64, FftError>| #[trigger]
            threshold.ensures((terms,), found) ==> found is Ok,
        signs_given(request.transform.graph, Ok(())),
        r2c_graph(request.global_shape@, request.transform.graph.transforms@, axis),
        rooms.words is Some,
        rooms.stages is Some,
        rooms.copies is Some,
        rooms.dimensions is Some,
        rooms.real_pencils is Some,
        rooms.complex_pencils is Some,
        mixed_r2c_refused_in(world, planners, threshold, facts, request, rooms, error),
    ensures
        planner_fails(planners, request.transform.graph.backend, error),
{
    let graph = request.transform.graph;
    assert(mixed_r2c_unbuilt(world, planners, threshold, request, rooms, error));
    assert forall|local: Result<usize, MixedError>| #[trigger]
        boundary_given(request.global_shape@, graph, local) implies local is Ok by {}
    let at = choose|at: int|
        {
            &&& r2c_graph(request.global_shape@, graph.transforms@, at)
            &&& #[trigger] mixed_axis_refused(
                world,
                planners,
                threshold,
                request,
                at,
                rooms,
                error,
            )
        };
    assert(!mixed_pair_refused(world, request, at, error));
    let routes = choose|routes: RoutePair<N, M>|
        {
            &&& #[trigger] mixed_pair_routed(world, request, at, routes)
            &&& mixed_routes_refused(
                world,
                planners,
                threshold,
                request,
                N - 1 - at,
                routes,
                rooms,
                error,
            )
        };
    lemma_mixed_routes_serve(world, planners, threshold, request, at, routes, rooms, error);
}

} // verus!
