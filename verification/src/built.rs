//! What holds of every plan that was built: how its exchanges move values, where it starts and ends,
//! and what its kernels multiply the values by.

use vstd::prelude::*;

use crate::boundary::DepthTerm;
use crate::error::BackendInitError;
use crate::error::FftError;
use crate::error::LocalC2cError;
use crate::error::LocalR2cError;
use crate::error::LocalR2rError;
use crate::holds_half::boundary_resizes;
use crate::layout::AxisSelection;
use crate::layout::Direction;
use crate::layout::ExtraShape;
use crate::layout::Pencil;
use crate::layout::TransposeMethod;
use crate::local::AxisR2rKind;
use crate::local::BackendChoice;
use crate::local::LocalC2cPlan;
use crate::local::LocalR2cPlan;
use crate::local::LocalR2rPlan;
use crate::local::R2rKind;
use crate::mixed_build::MixedAsk;
use crate::mixed_build::MixedFacts;
use crate::mixed_c2c::MixedC2cCore;
use crate::mixed_c2c_build::mixed_c2c_built;
use crate::mixed_c2c_build::mixed_c2c_built_in;
use crate::mixed_prepare::Planners;
use crate::mixed_r2c::MixedR2cCore;
use crate::mixed_r2c_build::mixed_r2c_built;
use crate::mixed_r2c_build::mixed_r2c_built_in;
use crate::prepare::r2c_stage_at;
use crate::prepare::RouteCandidate;
use crate::prepare::RoutePair;
use crate::r2c::TransformPlanCore;
use crate::r2c_build::r2c_built;
use crate::r2c_build::r2c_built_in;
use crate::r2c_build::r2c_planners_answer;
use crate::r2c_build::r2c_routed;
use crate::r2c_build::r2c_stages_hold;
use crate::r2c_build::reduced_extents;
use crate::r2c_build::R2cFacts;
use crate::r2c_build::R2cPlanners;
use crate::r2r::R2rCore;
use crate::r2r_build::r2r_built;
use crate::r2r_build::r2r_built_in;
use crate::r2r_build::R2rFacts;
use crate::registry::Stage;
use crate::request::PlanRequest;
use crate::rooms::Rooms;
use crate::scaled::gains_from;
use crate::scaled_r2c::r2c_gains;
use crate::transition::law_point_to_point_overlaps;
use crate::transition::move_by;
use crate::transition::overlaps;
use crate::transition::TransitionPlan;
use crate::world::canonical;
use crate::world::world_answers;
use crate::world::World;

verus! {

/// A route starts from the layout that was asked for and ends where a transform leaves its values:
/// the axes behind the first are distributed, and they lie in memory in reverse, or in their order
/// where memory is not permuted.
pub open spec fn runs_through<const N: usize, const M: usize>(
    route: RouteCandidate<N, M>,
    input: Pencil<N, M>,
    shape: [usize; N],
    permute: bool,
) -> bool {
    &&& route.stages@[0] == input
    &&& left_behind(route.stages@.last(), shape@, permute)
}

/// The layout in which a transform leaves values of some extents.
pub open spec fn left_behind<const N: usize, const M: usize>(
    pencil: Pencil<N, M>,
    shape: Seq<usize>,
    permute: bool,
) -> bool {
    &&& pencil.global_shape@ == shape
    &&& forall|d: int| 0 <= d < M ==> #[trigger] pencil.decomposition@[d] == d + 1
    &&& forall|p: int|
        0 <= p < N ==> #[trigger] pencil.memory_order@[p] == if permute {
            N - 1 - p
        } else {
            p
        }
}

/// Every route runs through.
pub open spec fn routes_run_through<Q: Fn(Pencil<N, M>, [usize; N], bool) -> Result<RouteCandidate<N, M>, FftError>, const N: usize, const M: usize>(
    question: Q,
) -> bool {
    forall|input: Pencil<N, M>, shape: [usize; N], permute: bool, route: RouteCandidate<N, M>|
        #[trigger] question.ensures((input, shape, permute), Ok(route)) ==> runs_through(
            route,
            input,
            shape,
            permute,
        )
}

/// The exchanges of a real-to-real or Hartley plan that was built move values between processes by
/// the method that was asked for. One that was asked for with point-to-point exchanges can be
/// executed with overlap.
pub proof fn law_r2r_moves_by_method<H: Fn([u64; 5]) -> bool, D: Fn(Option<Vec<u64>>, Option<usize>) -> Result<Vec<u64>, FftError>, A: Fn(bool) -> bool, P: Fn([usize; N]) -> Result<Pencil<N, M>, FftError>, Q: Fn(Pencil<N, M>, [usize; N], bool) -> Result<RouteCandidate<N, M>, FftError>, T: Fn(&Vec<Stage<N, M>>, &Vec<usize>, &ExtraShape, TransposeMethod, usize) -> Result<TransitionPlan, FftError>, K: Fn(AxisR2rKind, usize) -> Result<LocalR2rPlan, LocalR2rError>, const N: usize, const M: usize>(
    world: World<H, D, A, P, Q, T>,
    planner: K,
    facts: R2rFacts<N, M>,
    request: PlanRequest<[Option<R2rKind>; N], N, M>,
    core: R2rCore<N, M>,
)
    requires
        world_answers(world),
        r2r_built(world, planner, facts, request, core),
    ensures
        move_by(core.transitions@, request.layout.transpose_method),
        forall|direction: Direction|
            request.layout.transpose_method == TransposeMethod::PointToPoint ==> #[trigger] overlaps(
                core.transitions@,
                direction,
            ),
{
    let rooms = choose|rooms: Rooms<N, M>| #[trigger] r2r_built_in(world, planner, facts, request, rooms, core);
    assert(r2r_built_in(world, planner, facts, request, rooms, core));
    assert forall|direction: Direction|
        request.layout.transpose_method == TransposeMethod::PointToPoint implies #[trigger] overlaps(
        core.transitions@,
        direction,
    ) by {
        law_point_to_point_overlaps(core.transitions@, direction);
    }
}

/// A real-to-real or Hartley plan that was built starts from the canonical layout of its extents,
/// and leaves the values with the axes behind the first distributed, in reverse memory order or,
/// where memory is not permuted, in that of the axes.
pub proof fn law_r2r_ends_placed<H: Fn([u64; 5]) -> bool, D: Fn(Option<Vec<u64>>, Option<usize>) -> Result<Vec<u64>, FftError>, A: Fn(bool) -> bool, P: Fn([usize; N]) -> Result<Pencil<N, M>, FftError>, Q: Fn(Pencil<N, M>, [usize; N], bool) -> Result<RouteCandidate<N, M>, FftError>, T: Fn(&Vec<Stage<N, M>>, &Vec<usize>, &ExtraShape, TransposeMethod, usize) -> Result<TransitionPlan, FftError>, K: Fn(AxisR2rKind, usize) -> Result<LocalR2rPlan, LocalR2rError>, const N: usize, const M: usize>(
    world: World<H, D, A, P, Q, T>,
    planner: K,
    facts: R2rFacts<N, M>,
    request: PlanRequest<[Option<R2rKind>; N], N, M>,
    core: R2rCore<N, M>,
)
    requires
        1 <= N,
        routes_run_through(world.route),
        r2r_built(world, planner, facts, request, core),
    ensures
        canonical(core.spec_input(), request.global_shape),
        left_behind(core.spec_output(), request.global_shape@, request.layout.permute_dims),
{
    let rooms = choose|rooms: Rooms<N, M>| #[trigger] r2r_built_in(world, planner, facts, request, rooms, core);
    assert(r2r_built_in(world, planner, facts, request, rooms, core));
}

/// The exchanges of a mixed complex plan that was built move values between processes by the method
/// that was asked for. One that was asked for with point-to-point exchanges can be executed with
/// overlap.
pub proof fn law_mixed_c2c_moves_by_method<H: Fn([u64; 5]) -> bool, D: Fn(Option<Vec<u64>>, Option<usize>) -> Result<Vec<u64>, FftError>, A: Fn(bool) -> bool, P: Fn([usize; N]) -> Result<Pencil<N, M>, FftError>, Q: Fn(Pencil<N, M>, [usize; N], bool) -> Result<RouteCandidate<N, M>, FftError>, T: Fn(&Vec<Stage<N, M>>, &Vec<usize>, &ExtraShape, TransposeMethod, usize) -> Result<TransitionPlan, FftError>, C: Fn(BackendChoice, usize, bool) -> Result<LocalC2cPlan, BackendInitError<LocalC2cError>>, K: Fn(BackendChoice, AxisR2rKind, usize) -> Result<LocalR2rPlan, BackendInitError<LocalR2rError>>, B: Fn(BackendChoice, usize) -> Result<LocalR2cPlan, BackendInitError<LocalR2cError>>, const N: usize, const M: usize>(
    world: World<H, D, A, P, Q, T>,
    planners: Planners<C, K, B>,
    facts: MixedFacts<M>,
    request: PlanRequest<MixedAsk<N>, N, M>,
    core: MixedC2cCore<N, M>,
)
    requires
        world_answers(world),
        mixed_c2c_built(world, planners, facts, request, core),
    ensures
        move_by(core.transitions@, request.layout.transpose_method),
        forall|direction: Direction|
            request.layout.transpose_method == TransposeMethod::PointToPoint ==> #[trigger] overlaps(
                core.transitions@,
                direction,
            ),
{
    let rooms = choose|rooms: Rooms<N, M>| #[trigger] mixed_c2c_built_in(world, planners, facts, request, rooms, core);
    assert(mixed_c2c_built_in(world, planners, facts, request, rooms, core));
    assert forall|direction: Direction|
        request.layout.transpose_method == TransposeMethod::PointToPoint implies #[trigger] overlaps(
        core.transitions@,
        direction,
    ) by {
        law_point_to_point_overlaps(core.transitions@, direction);
    }
}

/// A mixed complex plan that was built starts from the canonical layout of its extents, and leaves
/// the values with the axes behind the first distributed, in reverse memory order or, where memory
/// is not permuted, in that of the axes.
pub proof fn law_mixed_c2c_ends_placed<H: Fn([u64; 5]) -> bool, D: Fn(Option<Vec<u64>>, Option<usize>) -> Result<Vec<u64>, FftError>, A: Fn(bool) -> bool, P: Fn([usize; N]) -> Result<Pencil<N, M>, FftError>, Q: Fn(Pencil<N, M>, [usize; N], bool) -> Result<RouteCandidate<N, M>, FftError>, T: Fn(&Vec<Stage<N, M>>, &Vec<usize>, &ExtraShape, TransposeMethod, usize) -> Result<TransitionPlan, FftError>, C: Fn(BackendChoice, usize, bool) -> Result<LocalC2cPlan, BackendInitError<LocalC2cError>>, K: Fn(BackendChoice, AxisR2rKind, usize) -> Result<LocalR2rPlan, BackendInitError<LocalR2rError>>, B: Fn(BackendChoice, usize) -> Result<LocalR2cPlan, BackendInitError<LocalR2cError>>, const N: usize, const M: usize>(
    world: World<H, D, A, P, Q, T>,
    planners: Planners<C, K, B>,
    facts: MixedFacts<M>,
    request: PlanRequest<MixedAsk<N>, N, M>,
    core: MixedC2cCore<N, M>,
)
    requires
        1 <= N,
        routes_run_through(world.route),
        mixed_c2c_built(world, planners, facts, request, core),
    ensures
        canonical(core.spec_input(), request.global_shape),
        left_behind(core.spec_output(), request.global_shape@, request.layout.permute_dims),
{
    let rooms = choose|rooms: Rooms<N, M>| #[trigger] mixed_c2c_built_in(world, planners, facts, request, rooms, core);
    assert(mixed_c2c_built_in(world, planners, facts, request, rooms, core));
}

/// The exchanges of a real-to-complex plan that was built move values between processes by the
/// method that was asked for. One that was asked for with point-to-point exchanges can be executed
/// with overlap.
pub proof fn law_r2c_moves_by_method<H: Fn([u64; 5]) -> bool, D: Fn(Option<Vec<u64>>, Option<usize>) -> Result<Vec<u64>, FftError>, A: Fn(bool) -> bool, P: Fn([usize; N]) -> Result<Pencil<N, M>, FftError>, Q: Fn(Pencil<N, M>, [usize; N], bool) -> Result<RouteCandidate<N, M>, FftError>, T: Fn(&Vec<Stage<N, M>>, &Vec<usize>, &ExtraShape, TransposeMethod, usize) -> Result<TransitionPlan, FftError>, X: Fn(usize) -> Result<LocalC2cPlan, LocalC2cError>, Y: Fn(usize) -> Result<LocalR2cPlan, LocalR2cError>, E: Fn(u64, &Vec<usize>) -> Result<u64, FftError>, const N: usize, const M: usize>(
    world: World<H, D, A, P, Q, T>,
    planners: R2cPlanners<X, Y, E>,
    facts: R2cFacts<M>,
    request: PlanRequest<AxisSelection<N>, N, M>,
    core: TransformPlanCore<N, M>,
)
    requires
        world_answers(world),
        r2c_built(world, planners, facts, request, core),
    ensures
        move_by(core.transitions@, request.layout.transpose_method),
        forall|direction: Direction|
            request.layout.transpose_method == TransposeMethod::PointToPoint ==> #[trigger] overlaps(
                core.transitions@,
                direction,
            ),
{
    let rooms = choose|rooms: Rooms<N, M>| #[trigger] r2c_built_in(world, planners, facts, request, rooms, core);
    assert(r2c_built_in(world, planners, facts, request, rooms, core));
    assert forall|direction: Direction|
        request.layout.transpose_method == TransposeMethod::PointToPoint implies #[trigger] overlaps(
        core.transitions@,
        direction,
    ) by {
        law_point_to_point_overlaps(core.transitions@, direction);
    }
}

/// A real-to-complex plan that was built starts from the canonical layout of its extents, and
/// leaves the values with the axes behind the first distributed, in reverse memory order or, where
/// memory is not permuted, in that of the axes.
pub proof fn law_r2c_ends_placed<H: Fn([u64; 5]) -> bool, D: Fn(Option<Vec<u64>>, Option<usize>) -> Result<Vec<u64>, FftError>, A: Fn(bool) -> bool, P: Fn([usize; N]) -> Result<Pencil<N, M>, FftError>, Q: Fn(Pencil<N, M>, [usize; N], bool) -> Result<RouteCandidate<N, M>, FftError>, T: Fn(&Vec<Stage<N, M>>, &Vec<usize>, &ExtraShape, TransposeMethod, usize) -> Result<TransitionPlan, FftError>, X: Fn(usize) -> Result<LocalC2cPlan, LocalC2cError>, Y: Fn(usize) -> Result<LocalR2cPlan, LocalR2cError>, E: Fn(u64, &Vec<usize>) -> Result<u64, FftError>, const N: usize, const M: usize>(
    world: World<H, D, A, P, Q, T>,
    planners: R2cPlanners<X, Y, E>,
    facts: R2cFacts<M>,
    request: PlanRequest<AxisSelection<N>, N, M>,
    core: TransformPlanCore<N, M>,
)
    requires
        1 <= N,
        routes_run_through(world.route),
        r2c_built(world, planners, facts, request, core),
    ensures
        canonical(core.spec_input(), request.global_shape),
        left_behind(core.spec_output(), reduced_extents(request.global_shape@, N - 1 - core.boundary), request.layout.permute_dims),
{
    let rooms = choose|rooms: Rooms<N, M>| #[trigger] r2c_built_in(world, planners, facts, request, rooms, core);
    assert(r2c_built_in(world, planners, facts, request, rooms, core));
}

/// Only the boundary of a real-to-complex plan that was built changes the layout.
pub proof fn law_r2c_resizes_at_boundary<H: Fn([u64; 5]) -> bool, D: Fn(Option<Vec<u64>>, Option<usize>) -> Result<Vec<u64>, FftError>, A: Fn(bool) -> bool, P: Fn([usize; N]) -> Result<Pencil<N, M>, FftError>, Q: Fn(Pencil<N, M>, [usize; N], bool) -> Result<RouteCandidate<N, M>, FftError>, T: Fn(&Vec<Stage<N, M>>, &Vec<usize>, &ExtraShape, TransposeMethod, usize) -> Result<TransitionPlan, FftError>, X: Fn(usize) -> Result<LocalC2cPlan, LocalC2cError>, Y: Fn(usize) -> Result<LocalR2cPlan, LocalR2cError>, E: Fn(u64, &Vec<usize>) -> Result<u64, FftError>, const N: usize, const M: usize>(
    world: World<H, D, A, P, Q, T>,
    planners: R2cPlanners<X, Y, E>,
    facts: R2cFacts<M>,
    request: PlanRequest<AxisSelection<N>, N, M>,
    core: TransformPlanCore<N, M>,
)
    requires
        r2c_built(world, planners, facts, request, core),
    ensures
        boundary_resizes(core.stages@, core.boundary as int),
{
    let rooms = choose|rooms: Rooms<N, M>| #[trigger] r2c_built_in(world, planners, facts, request, rooms, core);
    assert(r2c_built_in(world, planners, facts, request, rooms, core));
}

/// The exchanges of a mixed real-to-complex plan that was built move values between processes by
/// the method that was asked for. One that was asked for with point-to-point exchanges can be
/// executed with overlap.
pub proof fn law_mixed_r2c_moves_by_method<H: Fn([u64; 5]) -> bool, D: Fn(Option<Vec<u64>>, Option<usize>) -> Result<Vec<u64>, FftError>, A: Fn(bool) -> bool, P: Fn([usize; N]) -> Result<Pencil<N, M>, FftError>, Q: Fn(Pencil<N, M>, [usize; N], bool) -> Result<RouteCandidate<N, M>, FftError>, T: Fn(&Vec<Stage<N, M>>, &Vec<usize>, &ExtraShape, TransposeMethod, usize) -> Result<TransitionPlan, FftError>, C: Fn(BackendChoice, usize, bool) -> Result<LocalC2cPlan, BackendInitError<LocalC2cError>>, K: Fn(BackendChoice, AxisR2rKind, usize) -> Result<LocalR2rPlan, BackendInitError<LocalR2rError>>, B: Fn(BackendChoice, usize) -> Result<LocalR2cPlan, BackendInitError<LocalR2cError>>, E: Fn(&Vec<DepthTerm>) -> Result<u64, FftError>, const N: usize, const M: usize>(
    world: World<H, D, A, P, Q, T>,
    planners: Planners<C, K, B>,
    threshold: E,
    facts: MixedFacts<M>,
    request: PlanRequest<MixedAsk<N>, N, M>,
    core: MixedR2cCore<N, M>,
)
    requires
        world_answers(world),
        mixed_r2c_built(world, planners, threshold, facts, request, core),
    ensures
        move_by(core.transitions@, request.layout.transpose_method),
        forall|direction: Direction|
            request.layout.transpose_method == TransposeMethod::PointToPoint ==> #[trigger] overlaps(
                core.transitions@,
                direction,
            ),
{
    let rooms = choose|rooms: Rooms<N, M>| #[trigger] mixed_r2c_built_in(world, planners, threshold, facts, request, rooms, core);
    assert(mixed_r2c_built_in(world, planners, threshold, facts, request, rooms, core));
    assert forall|direction: Direction|
        request.layout.transpose_method == TransposeMethod::PointToPoint implies #[trigger] overlaps(
        core.transitions@,
        direction,
    ) by {
        law_point_to_point_overlaps(core.transitions@, direction);
    }
}

/// A mixed real-to-complex plan that was built starts from the canonical layout of its extents, and
/// leaves the values with the axes behind the first distributed, in reverse memory order or, where
/// memory is not permuted, in that of the axes.
pub proof fn law_mixed_r2c_ends_placed<H: Fn([u64; 5]) -> bool, D: Fn(Option<Vec<u64>>, Option<usize>) -> Result<Vec<u64>, FftError>, A: Fn(bool) -> bool, P: Fn([usize; N]) -> Result<Pencil<N, M>, FftError>, Q: Fn(Pencil<N, M>, [usize; N], bool) -> Result<RouteCandidate<N, M>, FftError>, T: Fn(&Vec<Stage<N, M>>, &Vec<usize>, &ExtraShape, TransposeMethod, usize) -> Result<TransitionPlan, FftError>, C: Fn(BackendChoice, usize, bool) -> Result<LocalC2cPlan, BackendInitError<LocalC2cError>>, K: Fn(BackendChoice, AxisR2rKind, usize) -> Result<LocalR2rPlan, BackendInitError<LocalR2rError>>, B: Fn(BackendChoice, usize) -> Result<LocalR2cPlan, BackendInitError<LocalR2cError>>, E: Fn(&Vec<DepthTerm>) -> Result<u64, FftError>, const N: usize, const M: usize>(
    world: World<H, D, A, P, Q, T>,
    planners: Planners<C, K, B>,
    threshold: E,
    facts: MixedFacts<M>,
    request: PlanRequest<MixedAsk<N>, N, M>,
    core: MixedR2cCore<N, M>,
)
    requires
        1 <= N,
        routes_run_through(world.route),
        mixed_r2c_built(world, planners, threshold, facts, request, core),
    ensures
        canonical(core.spec_input(), request.global_shape),
        left_behind(core.spec_output(), reduced_extents(request.global_shape@, N - 1 - core.boundary), request.layout.permute_dims),
{
    let rooms = choose|rooms: Rooms<N, M>| #[trigger] mixed_r2c_built_in(world, planners, threshold, facts, request, rooms, core);
    assert(mixed_r2c_built_in(world, planners, threshold, facts, request, rooms, core));
}

/// Only the boundary of a mixed real-to-complex plan that was built changes the layout.
pub proof fn law_mixed_r2c_resizes_at_boundary<H: Fn([u64; 5]) -> bool, D: Fn(Option<Vec<u64>>, Option<usize>) -> Result<Vec<u64>, FftError>, A: Fn(bool) -> bool, P: Fn([usize; N]) -> Result<Pencil<N, M>, FftError>, Q: Fn(Pencil<N, M>, [usize; N], bool) -> Result<RouteCandidate<N, M>, FftError>, T: Fn(&Vec<Stage<N, M>>, &Vec<usize>, &ExtraShape, TransposeMethod, usize) -> Result<TransitionPlan, FftError>, C: Fn(BackendChoice, usize, bool) -> Result<LocalC2cPlan, BackendInitError<LocalC2cError>>, K: Fn(BackendChoice, AxisR2rKind, usize) -> Result<LocalR2rPlan, BackendInitError<LocalR2rError>>, B: Fn(BackendChoice, usize) -> Result<LocalR2cPlan, BackendInitError<LocalR2cError>>, E: Fn(&Vec<DepthTerm>) -> Result<u64, FftError>, const N: usize, const M: usize>(
    world: World<H, D, A, P, Q, T>,
    planners: Planners<C, K, B>,
    threshold: E,
    facts: MixedFacts<M>,
    request: PlanRequest<MixedAsk<N>, N, M>,
    core: MixedR2cCore<N, M>,
)
    requires
        mixed_r2c_built(world, planners, threshold, facts, request, core),
    ensures
        boundary_resizes(core.stages@, core.boundary as int),
{
    let rooms = choose|rooms: Rooms<N, M>| #[trigger] mixed_r2c_built_in(world, planners, threshold, facts, request, rooms, core);
    assert(mixed_r2c_built_in(world, planners, threshold, facts, request, rooms, core));
}

/// The product of the extents of the selected ones among the first `count` axes.
pub open spec fn selected_extents<const N: usize>(
    selection: AxisSelection<N>,
    shape: Seq<usize>,
    count: int,
) -> int
    decreases count,
{
    if count <= 0 {
        1
    } else {
        selected_extents(selection, shape, count - 1) * if selection.spec_contains(count - 1) {
            shape[count - 1] as int
        } else {
            1
        }
    }
}

proof fn lemma_gains_from<const N: usize>(
    gains: Seq<int>,
    selection: AxisSelection<N>,
    shape: Seq<usize>,
    first: int,
)
    requires
        gains.len() == N,
        0 <= first <= N,
        forall|i: int|
            0 <= i < N ==> #[trigger] gains[i] == if selection.spec_contains(N - 1 - i) {
                shape[N - 1 - i] as int
            } else {
                1
            },
    ensures
        gains_from(gains, first) == selected_extents(selection, shape, N - first),
    decreases N - first,
{
    if first < N {
        lemma_gains_from(gains, selection, shape, first + 1);
    }
}

/// The values of a real-to-complex plan that was built come back without normalization times the
/// product of the extents of the selected axes; other axes, the extra dimensions and the reduced
/// extent are no factors of it.
pub proof fn law_r2c_gains_are_extents<H: Fn([u64; 5]) -> bool, D: Fn(Option<Vec<u64>>, Option<usize>) -> Result<Vec<u64>, FftError>, A: Fn(bool) -> bool, P: Fn([usize; N]) -> Result<Pencil<N, M>, FftError>, Q: Fn(Pencil<N, M>, [usize; N], bool) -> Result<RouteCandidate<N, M>, FftError>, T: Fn(&Vec<Stage<N, M>>, &Vec<usize>, &ExtraShape, TransposeMethod, usize) -> Result<TransitionPlan, FftError>, X: Fn(usize) -> Result<LocalC2cPlan, LocalC2cError>, Y: Fn(usize) -> Result<LocalR2cPlan, LocalR2cError>, E: Fn(u64, &Vec<usize>) -> Result<u64, FftError>, const N: usize, const M: usize>(
    world: World<H, D, A, P, Q, T>,
    planners: R2cPlanners<X, Y, E>,
    facts: R2cFacts<M>,
    request: PlanRequest<AxisSelection<N>, N, M>,
    core: TransformPlanCore<N, M>,
)
    requires
        r2c_planners_answer(planners),
        forall|n: usize, plan: LocalC2cPlan| #[trigger]
            planners.c2c.ensures((n,), Ok(plan)) ==> plan.line_len == n,
        r2c_built(world, planners, facts, request, core),
        core.wf(),
    ensures
        gains_from(r2c_gains(core), 0) == selected_extents(
            request.transform,
            request.global_shape@,
            N as int,
        ),
{
    let rooms = choose|rooms: Rooms<N, M>| #[trigger] r2c_built_in(world, planners, facts, request, rooms, core);
    assert(r2c_built_in(world, planners, facts, request, rooms, core));
    let gains = r2c_gains(core);
    let axis = N - 1 - core.boundary;
    let routes = choose|routes: RoutePair<N, M>| #[trigger] r2c_routed(world, request, axis, routes)
        && r2c_stages_hold(
        planners,
        routes,
        request.transform,
        core.boundary as int,
        core.stages@,
        core.locals@,
    );
    assert forall|i: int| 0 <= i < N implies #[trigger] gains[i] == if request.transform.spec_contains(
        N - 1 - i,
    ) {
        request.global_shape@[N - 1 - i] as int
    } else {
        1
    } by {
        assert(r2c_stage_at(
            planners.c2c,
            planners.r2c,
            routes,
            request.transform,
            core.boundary as int,
            i,
            Ok(core.locals@[i]),
        ));
    }
    lemma_gains_from(gains, request.transform, request.global_shape@, 0);
}

} // verus!
