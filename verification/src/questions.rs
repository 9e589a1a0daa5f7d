//! What a plan that was built asked for, and that it follows the answers.

use vstd::prelude::*;

use crate::boundary::DepthTerm;
use crate::error::BackendInitError;
use crate::error::FftError;
use crate::error::LocalC2cError;
use crate::error::LocalR2cError;
use crate::error::LocalR2rError;
use crate::layout::AxisSelection;
use crate::layout::ExtraShape;
use crate::layout::Pencil;
use crate::layout::TransposeMethod;
use crate::local::AxisR2rKind;
use crate::local::BackendChoice;
use crate::local::LocalC2cPlan;
use crate::local::LocalR2cPlan;
use crate::local::LocalR2rPlan;
use crate::local::R2rKind;
use crate::mixed_build::MixedAsk;
use crate::mixed_build::MixedFacts;
use crate::mixed_c2c::MixedC2cCore;
use crate::mixed_c2c_build::mixed_c2c_built;
use crate::mixed_c2c_build::mixed_c2c_built_in;
use crate::mixed_c2c_build::mixed_c2c_stages_hold;
use crate::mixed_c2c_build::mixed_routed;
use crate::mixed_prepare::Planners;
use crate::mixed_r2c::MixedR2cCore;
use crate::mixed_r2c_build::mixed_pair_routed;
use crate::mixed_r2c_build::mixed_r2c_built;
use crate::mixed_r2c_build::mixed_r2c_built_in;
use crate::mixed_r2c_build::mixed_r2c_stages_hold;
use crate::prepare::RouteCandidate;
use crate::prepare::RoutePair;
use crate::r2c::TransformPlanCore;
use crate::r2c_build::dimensions_fit;
use crate::r2c_build::joined_dimensions;
use crate::r2c_build::original_routed;
use crate::r2c_build::r2c_built;
use crate::r2c_build::r2c_built_in;
use crate::r2c_build::r2c_routed;
use crate::r2c_build::r2c_stages_hold;
use crate::r2c_build::reduced_extents;
use crate::r2c_build::reduced_input_given;
use crate::r2c_build::R2cFacts;
use crate::r2c_build::R2cPlanners;
use crate::r2r::R2rCore;
use crate::r2r_build::r2r_built;
use crate::r2r_build::r2r_built_in;
use crate::r2r_build::r2r_stages_hold;
use crate::r2r_build::transitions_given;
use crate::r2r_build::R2rFacts;
use crate::registry::Stage;
use crate::request::PlanRequest;
use crate::rooms::Rooms;
use crate::transition::TransitionPlan;
use crate::world::input_given;
use crate::world::World;

verus! {

/// The exchanges were asked for between these stages, over these process dimensions, for these
/// extra dimensions, by this method, and with this boundary.
pub open spec fn asked_for<T: Fn(&Vec<Stage<N, M>>, &Vec<usize>, &ExtraShape, TransposeMethod, usize) -> Result<TransitionPlan, FftError>, const N: usize, const M: usize>(
    question: T,
    stages: Seq<Stage<N, M>>,
    dimensions: Seq<usize>,
    extra_shape: ExtraShape,
    method: TransposeMethod,
    boundary: usize,
    plan: TransitionPlan,
) -> bool {
    exists|asked: &Vec<Stage<N, M>>, over: &Vec<usize>| #[trigger]
        question.ensures((asked, over, &extra_shape, method, boundary), Ok(plan)) && asked@ == stages
            && over@ == dimensions
}

proof fn lemma_asked<T: Fn(&Vec<Stage<N, M>>, &Vec<usize>, &ExtraShape, TransposeMethod, usize) -> Result<TransitionPlan, FftError>, const N: usize, const M: usize>(
    question: T,
    stages: Seq<Stage<N, M>>,
    dimensions: Seq<usize>,
    extra_shape: ExtraShape,
    method: TransposeMethod,
    boundary: usize,
    plan: TransitionPlan,
)
    requires
        transitions_given(question, stages, dimensions, extra_shape, method, boundary, Ok(plan)),
    ensures
        asked_for(question, stages, dimensions, extra_shape, method, boundary, plan),
{
    let (asked, over) = choose|asked: &Vec<Stage<N, M>>, over: &Vec<usize>|
        {
            &&& asked@ == stages
            &&& over@ == dimensions
            &&& #[trigger] question.ensures((asked, over, &extra_shape, method, boundary), Ok(plan))
        };
    assert(question.ensures((asked, over, &extra_shape, method, boundary), Ok(plan)));
}

/// The layout that a plan starts from was given, or is the one that was asked for the extents.
pub open spec fn starts_at<P: Fn([usize; N]) -> Result<Pencil<N, M>, FftError>, const N: usize, const M: usize>(
    question: P,
    given: Option<Pencil<N, M>>,
    shape: [usize; N],
    input: Pencil<N, M>,
) -> bool {
    match given {
        Some(pencil) => input == pencil,
        None => question.ensures((shape,), Ok(input)),
    }
}

/// A real-to-real or Hartley plan that was built asked for a route over its extents, from the
/// layout it was given or that of its extents and with the memory order that was asked for; it
/// works in the layouts of that route, and its exchanges are those that were asked for between
/// them.
pub proof fn law_r2r_follows_route<H: Fn([u64; 5]) -> bool, D: Fn(Option<Vec<u64>>, Option<usize>) -> Result<Vec<u64>, FftError>, A: Fn(bool) -> bool, P: Fn([usize; N]) -> Result<Pencil<N, M>, FftError>, Q: Fn(Pencil<N, M>, [usize; N], bool) -> Result<RouteCandidate<N, M>, FftError>, T: Fn(&Vec<Stage<N, M>>, &Vec<usize>, &ExtraShape, TransposeMethod, usize) -> Result<TransitionPlan, FftError>, K: Fn(AxisR2rKind, usize) -> Result<LocalR2rPlan, LocalR2rError>, const N: usize, const M: usize>(
    world: World<H, D, A, P, Q, T>,
    planner: K,
    facts: R2rFacts<N, M>,
    request: PlanRequest<[Option<R2rKind>; N], N, M>,
    core: R2rCore<N, M>,
) -> (found: (Pencil<N, M>, RouteCandidate<N, M>, TransitionPlan))
    requires
        r2r_built(world, planner, facts, request, core),
    ensures
        starts_at(world.pencil, request.input, request.global_shape, found.0),
        world.route.ensures(
            (found.0, request.global_shape, request.layout.permute_dims),
            Ok(found.1),
        ),
        forall|i: int|
            0 <= i < N ==> (#[trigger] core.stages@[i]).input == found.1.stages@[i] && core.stages@[i].output
                == found.1.stages@[i],
        asked_for(
            world.transitions,
            core.stages@,
            found.1.distributed@,
            request.extra_shape,
            request.layout.transpose_method,
            0,
            found.2,
        ),
        core.transitions@ == found.2.transitions@,
        core.lens.send == found.2.send_len,
        core.lens.receive == found.2.receive_len,
{
    let rooms = choose|rooms: Rooms<N, M>| #[trigger]
        r2r_built_in(world, planner, facts, request, rooms, core);
    assert(r2r_built_in(world, planner, facts, request, rooms, core));
    let (input, route, exchanges) = choose|input: Pencil<N, M>, route: RouteCandidate<N, M>, exchanges: TransitionPlan|
        {
            &&& input_given(world.pencil, request, Ok(input))
            &&& #[trigger] world.route.ensures(
                (input, request.global_shape, request.layout.permute_dims),
                Ok(route),
            )
            &&& r2r_stages_hold(
                planner,
                route.stages@,
                request.global_shape@,
                facts.axis_kinds@,
                core.stages@,
                core.locals@,
            )
            &&& #[trigger] transitions_given(
                world.transitions,
                core.stages@,
                route.distributed@,
                request.extra_shape,
                request.layout.transpose_method,
                0,
                Ok(exchanges),
            )
            &&& core.transitions == exchanges.transitions
            &&& core.lens.send == exchanges.send_len
            &&& core.lens.receive == exchanges.receive_len
        };
    lemma_asked(
        world.transitions,
        core.stages@,
        route.distributed@,
        request.extra_shape,
        request.layout.transpose_method,
        0,
        exchanges,
    );
    (input, route, exchanges)
}

/// A mixed complex plan that was built follows the route that was asked for, and its exchanges are
/// those that were asked for between its stages.
pub proof fn law_mixed_c2c_follows_route<H: Fn([u64; 5]) -> bool, D: Fn(Option<Vec<u64>>, Option<usize>) -> Result<Vec<u64>, FftError>, A: Fn(bool) -> bool, P: Fn([usize; N]) -> Result<Pencil<N, M>, FftError>, Q: Fn(Pencil<N, M>, [usize; N], bool) -> Result<RouteCandidate<N, M>, FftError>, T: Fn(&Vec<Stage<N, M>>, &Vec<usize>, &ExtraShape, TransposeMethod, usize) -> Result<TransitionPlan, FftError>, C: Fn(BackendChoice, usize, bool) -> Result<LocalC2cPlan, BackendInitError<LocalC2cError>>, K: Fn(BackendChoice, AxisR2rKind, usize) -> Result<LocalR2rPlan, BackendInitError<LocalR2rError>>, B: Fn(BackendChoice, usize) -> Result<LocalR2cPlan, BackendInitError<LocalR2cError>>, const N: usize, const M: usize>(
    world: World<H, D, A, P, Q, T>,
    planners: Planners<C, K, B>,
    facts: MixedFacts<M>,
    request: PlanRequest<MixedAsk<N>, N, M>,
    core: MixedC2cCore<N, M>,
) -> (found: (Pencil<N, M>, RouteCandidate<N, M>, TransitionPlan))
    requires
        mixed_c2c_built(world, planners, facts, request, core),
    ensures
        starts_at(world.pencil, request.input, request.global_shape, found.0),
        world.route.ensures(
            (found.0, request.global_shape, request.layout.permute_dims),
            Ok(found.1),
        ),
        forall|i: int|
            0 <= i < N ==> (#[trigger] core.stages@[i]).input == found.1.stages@[i] && core.stages@[i].output
                == found.1.stages@[i],
        asked_for(
            world.transitions,
            core.stages@,
            found.1.distributed@,
            request.extra_shape,
            request.layout.transpose_method,
            0,
            found.2,
        ),
        core.transitions@ == found.2.transitions@,
        core.lens.send == found.2.send_len,
        core.lens.receive == found.2.receive_len,
{
    let rooms = choose|rooms: Rooms<N, M>| #[trigger]
        mixed_c2c_built_in(world, planners, facts, request, rooms, core);
    assert(mixed_c2c_built_in(world, planners, facts, request, rooms, core));
    let (route, exchanges) = choose|route: RouteCandidate<N, M>, exchanges: TransitionPlan|
        {
            &&& #[trigger] mixed_routed(world, request, Ok(route))
            &&& mixed_c2c_stages_hold(
                planners,
                route.stages@,
                request.global_shape@,
                request.transform.graph,
                core.stages@,
                core.locals@,
            )
            &&& #[trigger] transitions_given(
                world.transitions,
                core.stages@,
                route.distributed@,
                request.extra_shape,
                request.layout.transpose_method,
                0,
                Ok(exchanges),
            )
            &&& core.transitions == exchanges.transitions
            &&& core.lens.send == exchanges.send_len
            &&& core.lens.receive == exchanges.receive_len
        };
    let input = choose|input: Pencil<N, M>|
        {
            &&& input_given(world.pencil, request, Ok(input))
            &&& #[trigger] world.route.ensures(
                (input, request.global_shape, request.layout.permute_dims),
                Ok(route),
            )
        };
    assert(mixed_routed(world, request, Ok(route)));
    lemma_asked(
        world.transitions,
        core.stages@,
        route.distributed@,
        request.extra_shape,
        request.layout.transpose_method,
        0,
        exchanges,
    );
    (input, route, exchanges)
}

/// A real-to-complex plan that was built follows two routes that were asked for: one over its
/// extents up to the boundary, and from the boundary on one over the extents that the boundary
/// leaves, where the reduced axis has half as many elements and one more. Its exchanges are
/// those that were asked for between its stages, over the process dimensions of the route that
/// they lie on.
pub proof fn law_r2c_follows_routes<H: Fn([u64; 5]) -> bool, D: Fn(Option<Vec<u64>>, Option<usize>) -> Result<Vec<u64>, FftError>, A: Fn(bool) -> bool, P: Fn([usize; N]) -> Result<Pencil<N, M>, FftError>, Q: Fn(Pencil<N, M>, [usize; N], bool) -> Result<RouteCandidate<N, M>, FftError>, T: Fn(&Vec<Stage<N, M>>, &Vec<usize>, &ExtraShape, TransposeMethod, usize) -> Result<TransitionPlan, FftError>, X: Fn(usize) -> Result<LocalC2cPlan, LocalC2cError>, Y: Fn(usize) -> Result<LocalR2cPlan, LocalR2cError>, E: Fn(u64, &Vec<usize>) -> Result<u64, FftError>, const N: usize, const M: usize>(
    world: World<H, D, A, P, Q, T>,
    planners: R2cPlanners<X, Y, E>,
    facts: R2cFacts<M>,
    request: PlanRequest<AxisSelection<N>, N, M>,
    core: TransformPlanCore<N, M>,
) -> (found: ((Pencil<N, M>, RouteCandidate<N, M>), (Pencil<N, M>, RouteCandidate<N, M>, [usize; N]), TransitionPlan))
    requires
        r2c_built(world, planners, facts, request, core),
        core.wf(),
    ensures
        starts_at(world.pencil, request.input, request.global_shape, found.0.0),
        world.route.ensures(
            (found.0.0, request.global_shape, request.layout.permute_dims),
            Ok(found.0.1),
        ),
        found.1.2@ == request.global_shape@.update(
            N - 1 - core.boundary,
            (request.global_shape@[N - 1 - core.boundary] / 2 + 1) as usize,
        ),
        starts_at(world.pencil, None::<Pencil<N, M>>, found.1.2, found.1.0),
        world.route.ensures((found.1.0, found.1.2, request.layout.permute_dims), Ok(found.1.1)),
        forall|i: int|
            0 <= i < N ==> (#[trigger] core.stages@[i]).input == if i <= core.boundary {
                found.0.1.stages@[i]
            } else {
                found.1.1.stages@[i]
            },
        forall|i: int|
            0 <= i < N ==> (#[trigger] core.stages@[i]).output == if i < core.boundary {
                found.0.1.stages@[i]
            } else {
                found.1.1.stages@[i]
            },
        asked_for(
            world.transitions,
            core.stages@,
            Seq::new(
                (N - 1) as nat,
                |i: int|
                    if i < core.boundary {
                        found.0.1.distributed@[i]
                    } else {
                        found.1.1.distributed@[i]
                    },
            ),
            request.extra_shape,
            request.layout.transpose_method,
            core.boundary,
            found.2,
        ),
        core.transitions@ == found.2.transitions@,
        core.lens.send == found.2.send_len,
        core.lens.receive == found.2.receive_len,
        core.real_lens.send == found.2.real_send_len,
        core.real_lens.receive == found.2.real_receive_len,
{
    let rooms = choose|rooms: Rooms<N, M>| #[trigger]
        r2c_built_in(world, planners, facts, request, rooms, core);
    assert(r2c_built_in(world, planners, facts, request, rooms, core));
    let axis = N - 1 - core.boundary;
    let (routes, exchanges) = choose|routes: RoutePair<N, M>, exchanges: TransitionPlan|
        {
            &&& #[trigger] r2c_routed(world, request, axis, routes)
            &&& dimensions_fit(routes)
            &&& r2c_stages_hold(
                planners,
                routes,
                request.transform,
                core.boundary as int,
                core.stages@,
                core.locals@,
            )
            &&& #[trigger] transitions_given(
                world.transitions,
                core.stages@,
                joined_dimensions(
                    routes.original_route.distributed@,
                    routes.reduced_route.distributed@,
                    core.boundary as int,
                ),
                request.extra_shape,
                request.layout.transpose_method,
                core.boundary,
                Ok(exchanges),
            )
            &&& core.transitions == exchanges.transitions
            &&& core.lens.send == exchanges.send_len
            &&& core.lens.receive == exchanges.receive_len
            &&& core.real_lens.send == exchanges.real_send_len
            &&& core.real_lens.receive == exchanges.real_receive_len
        };
    assert(r2c_routed(world, request, axis, routes));
    assert(original_routed(world, request, Ok(routes.original_route)));
    let input = choose|input: Pencil<N, M>|
        {
            &&& input_given(world.pencil, request, Ok(input))
            &&& #[trigger] world.route.ensures(
                (input, request.global_shape, request.layout.permute_dims),
                Ok(routes.original_route),
            )
        };
    let (reduced_input, reduced) = choose|reduced_input: Pencil<N, M>, reduced: [usize; N]|
        {
            &&& reduced_input_given(world, request.global_shape@, axis, Ok(reduced_input))
            &&& reduced@ == reduced_extents(request.global_shape@, axis)
            &&& #[trigger] world.route.ensures(
                (reduced_input, reduced, request.layout.permute_dims),
                Ok(routes.reduced_route),
            )
        };
    let same = choose|same: [usize; N]|
        {
            &&& same@ == reduced_extents(request.global_shape@, axis)
            &&& #[trigger] world.pencil.ensures((same,), Ok(reduced_input))
        };
    assert(same =~= reduced);
    let joined = joined_dimensions(
        routes.original_route.distributed@,
        routes.reduced_route.distributed@,
        core.boundary as int,
    );
    lemma_asked(
        world.transitions,
        core.stages@,
        joined,
        request.extra_shape,
        request.layout.transpose_method,
        core.boundary,
        exchanges,
    );
    let dimensions = Seq::new(
        (N - 1) as nat,
        |i: int|
            if i < core.boundary {
                routes.original_route.distributed@[i]
            } else {
                routes.reduced_route.distributed@[i]
            },
    );
    assert(joined =~= dimensions);
    assert forall|i: int| 0 <= i < N implies (#[trigger] core.stages@[i]).input == if i <= core.boundary {
        routes.original_route.stages@[i]
    } else {
        routes.reduced_route.stages@[i]
    } by {
        assert(core.stages@[i] == routes.stage_at(core.boundary as int, i));
    }
    assert forall|i: int| 0 <= i < N implies (#[trigger] core.stages@[i]).output == if i < core.boundary {
        routes.original_route.stages@[i]
    } else {
        routes.reduced_route.stages@[i]
    } by {
        assert(core.stages@[i] == routes.stage_at(core.boundary as int, i));
    }
    ((input, routes.original_route), (reduced_input, routes.reduced_route, reduced), exchanges)
}

/// A mixed real-to-complex plan that was built follows two routes that were asked for: one over
/// its extents up to the boundary, and from the boundary on one over the extents that the
/// boundary leaves, where the reduced axis has half as many elements and one more. Its
/// exchanges are those that were asked for between its stages, over the process dimensions of
/// the route that they lie on.
pub proof fn law_mixed_r2c_follows_routes<H: Fn([u64; 5]) -> bool, D: Fn(Option<Vec<u64>>, Option<usize>) -> Result<Vec<u64>, FftError>, A: Fn(bool) -> bool, P: Fn([usize; N]) -> Result<Pencil<N, M>, FftError>, Q: Fn(Pencil<N, M>, [usize; N], bool) -> Result<RouteCandidate<N, M>, FftError>, T: Fn(&Vec<Stage<N, M>>, &Vec<usize>, &ExtraShape, TransposeMethod, usize) -> Result<TransitionPlan, FftError>, C: Fn(BackendChoice, usize, bool) -> Result<LocalC2cPlan, BackendInitError<LocalC2cError>>, K: Fn(BackendChoice, AxisR2rKind, usize) -> Result<LocalR2rPlan, BackendInitError<LocalR2rError>>, B: Fn(BackendChoice, usize) -> Result<LocalR2cPlan, BackendInitError<LocalR2cError>>, E: Fn(&Vec<DepthTerm>) -> Result<u64, FftError>, const N: usize, const M: usize>(
    world: World<H, D, A, P, Q, T>,
    planners: Planners<C, K, B>,
    threshold: E,
    facts: MixedFacts<M>,
    request: PlanRequest<MixedAsk<N>, N, M>,
    core: MixedR2cCore<N, M>,
) -> (found: ((Pencil<N, M>, RouteCandidate<N, M>), (Pencil<N, M>, RouteCandidate<N, M>, [usize; N]), TransitionPlan))
    requires
        mixed_r2c_built(world, planners, threshold, facts, request, core),
        core.wf(),
    ensures
        starts_at(world.pencil, request.input, request.global_shape, found.0.0),
        world.route.ensures(
            (found.0.0, request.global_shape, request.layout.permute_dims),
            Ok(found.0.1),
        ),
        found.1.2@ == request.global_shape@.update(
            N - 1 - core.boundary,
            (request.global_shape@[N - 1 - core.boundary] / 2 + 1) as usize,
        ),
        starts_at(world.pencil, None::<Pencil<N, M>>, found.1.2, found.1.0),
        world.route.ensures((found.1.0, found.1.2, request.layout.permute_dims), Ok(found.1.1)),
        forall|i: int|
            0 <= i < N ==> (#[trigger] core.stages@[i]).input == if i <= core.boundary {
                found.0.1.stages@[i]
            } else {
                found.1.1.stages@[i]
            },
        forall|i: int|
            0 <= i < N ==> (#[trigger] core.stages@[i]).output == if i < core.boundary {
                found.0.1.stages@[i]
            } else {
                found.1.1.stages@[i]
            },
        asked_for(
            world.transitions,
            core.stages@,
            Seq::new(
                (N - 1) as nat,
                |i: int|
                    if i < core.boundary {
                        found.0.1.distributed@[i]
                    } else {
                        found.1.1.distributed@[i]
                    },
            ),
            request.extra_shape,
            request.layout.transpose_method,
            core.boundary,
            found.2,
        ),
        core.transitions@ == found.2.transitions@,
        core.lens.send == found.2.send_len,
        core.lens.receive == found.2.receive_len,
        core.real_lens.send == found.2.real_send_len,
        core.real_lens.receive == found.2.real_receive_len,
{
    let rooms = choose|rooms: Rooms<N, M>| #[trigger]
        mixed_r2c_built_in(world, planners, threshold, facts, request, rooms, core);
    assert(mixed_r2c_built_in(world, planners, threshold, facts, request, rooms, core));
    let axis = N - 1 - core.boundary;
    let (routes, exchanges) = choose|routes: RoutePair<N, M>, exchanges: TransitionPlan|
        {
            &&& #[trigger] mixed_pair_routed(world, request, axis, routes)
            &&& dimensions_fit(routes)
            &&& mixed_r2c_stages_hold(
                planners,
                routes,
                request.transform.graph,
                core.boundary as int,
                core.stages@,
                core.locals@,
            )
            &&& #[trigger] transitions_given(
                world.transitions,
                core.stages@,
                joined_dimensions(
                    routes.original_route.distributed@,
                    routes.reduced_route.distributed@,
                    core.boundary as int,
                ),
                request.extra_shape,
                request.layout.transpose_method,
                core.boundary,
                Ok(exchanges),
            )
            &&& core.transitions == exchanges.transitions
            &&& core.lens.send == exchanges.send_len
            &&& core.lens.receive == exchanges.receive_len
            &&& core.real_lens.send == exchanges.real_send_len
            &&& core.real_lens.receive == exchanges.real_receive_len
        };
    assert(mixed_pair_routed(world, request, axis, routes));
    assert(mixed_routed(world, request, Ok(routes.original_route)));
    let input = choose|input: Pencil<N, M>|
        {
            &&& input_given(world.pencil, request, Ok(input))
            &&& #[trigger] world.route.ensures(
                (input, request.global_shape, request.layout.permute_dims),
                Ok(routes.original_route),
            )
        };
    let (reduced_input, reduced) = choose|reduced_input: Pencil<N, M>, reduced: [usize; N]|
        {
            &&& reduced_input_given(world, request.global_shape@, axis, Ok(reduced_input))
            &&& reduced@ == reduced_extents(request.global_shape@, axis)
            &&& #[trigger] world.route.ensures(
                (reduced_input, reduced, request.layout.permute_dims),
                Ok(routes.reduced_route),
            )
        };
    let same = choose|same: [usize; N]|
        {
            &&& same@ == reduced_extents(request.global_shape@, axis)
            &&& #[trigger] world.pencil.ensures((same,), Ok(reduced_input))
        };
    assert(same =~= reduced);
    let joined = joined_dimensions(
        routes.original_route.distributed@,
        routes.reduced_route.distributed@,
        core.boundary as int,
    );
    lemma_asked(
        world.transitions,
        core.stages@,
        joined,
        request.extra_shape,
        request.layout.transpose_method,
        core.boundary,
        exchanges,
    );
    let dimensions = Seq::new(
        (N - 1) as nat,
        |i: int|
            if i < core.boundary {
                routes.original_route.distributed@[i]
            } else {
                routes.reduced_route.distributed@[i]
            },
    );
    assert(joined =~= dimensions);
    assert forall|i: int| 0 <= i < N implies (#[trigger] core.stages@[i]).input == if i <= core.boundary {
        routes.original_route.stages@[i]
    } else {
        routes.reduced_route.stages@[i]
    } by {
        assert(core.stages@[i] == routes.stage_at(core.boundary as int, i));
    }
    assert forall|i: int| 0 <= i < N implies (#[trigger] core.stages@[i]).output == if i < core.boundary {
        routes.original_route.stages@[i]
    } else {
        routes.reduced_route.stages@[i]
    } by {
        assert(core.stages@[i] == routes.stage_at(core.boundary as int, i));
    }
    ((input, routes.original_route), (reduced_input, routes.reduced_route, reduced), exchanges)
}

} // verus!
