//! How a real-to-complex plan is built.

use vstd::prelude::*;

use crate::boundary::is_depth;
use crate::boundary::normalization_depth;
use crate::boundary::selected_extents;
use crate::boundary::transverse_extents;
use crate::error::FftError;
use crate::error::LocalC2cError;
use crate::error::LocalR2cError;
use crate::error::R2cError;
use crate::layout::memory_stride;
use crate::layout::AxisSelection;
use crate::layout::Pencil;
use crate::layout::TransposeMethod;
use crate::layout::ExtraShape;
use crate::local::LocalC2cPlan;
use crate::local::LocalR2cPlan;
use crate::local::LocalTransform;
use crate::mixed_prepare::strided_line;
use crate::prepare::largest_of;
use crate::prepare::lemma_largest_push;
use crate::prepare::prepare_r2c_stages_in;
use crate::prepare::r2c_stage_at;
use crate::prepare::r2c_stages_before;
use crate::prepare::RouteCandidate;
use crate::prepare::RoutePair;
use crate::prepare::StagePreparation;
use crate::r2c::TransformPlanCore;
use crate::r2r_build::transitions_given;
use crate::registry::is_empty_room;
use crate::registry::room_for;
use crate::registry::stages_wf;
use crate::registry::Stage;
use crate::request::PlanRequest;
use crate::rooms::Rooms;
use crate::sweep::larger;
use crate::sweep::max_len;
use crate::transition::TransitionPlan;
use crate::words::descriptor_len;
use crate::words::descriptor_room;
use crate::words::descriptor_words;
use crate::words::header_words;
use crate::words::lemma_empty_front;
use crate::words::mixed_header;
use crate::words::operation_word_of;
use crate::words::selection_words;
use crate::words::spec_descriptor_len;
use crate::words::word_for;
use crate::words::write_descriptor;
use crate::words::Operation;
use crate::words::PlanFamily;
use crate::words::VALUE_KIND_R2C;
use crate::workspace::CommonLens;
use crate::world::agree_words;
use crate::world::find_input;
use crate::world::input_given;
use crate::world::lift;
use crate::world::lifted;
use crate::world::settle;
use crate::world::settled;
use crate::world::words_agreed;
use crate::world::world_answers;
use crate::world::World;

verus! {

/// What is known of a plan before it is built, besides the request.
#[derive(Clone, Copy, Debug)]
pub struct R2cFacts<const M: usize> {
    /// Tells the plan from others.
    pub id: u64,
    /// The extents of the process grid.
    pub process_grid: [usize; M],
    /// Bytes of a real scalar.
    pub scalar_bytes: usize,
}

/// The planners of local kernels and of the threshold. The threshold is told the depth and the
/// extents of the complex transforms behind the boundary, and gives a bit pattern.
#[derive(Debug)]
pub struct R2cPlanners<X, Y, E> {
    /// Plans complex kernels.
    pub c2c: X,
    /// Plans the boundary.
    pub r2c: Y,
    /// Gives the absolute threshold of an unnormalized execution.
    pub threshold: E,
}

/// The planners can be asked for every kernel, and a boundary has the length that was asked for.
pub open spec fn r2c_planners_answer<X: Fn(usize) -> Result<LocalC2cPlan, LocalC2cError>, Y: Fn(usize) -> Result<LocalR2cPlan, LocalR2cError>, E: Fn(u64, &Vec<usize>) -> Result<u64, FftError>>(
    planners: R2cPlanners<X, Y, E>,
) -> bool {
    &&& forall|n: usize| #[trigger] planners.c2c.requires((n,))
    &&& forall|n: usize| #[trigger] planners.r2c.requires((n,))
    &&& forall|depth: u64, extents: &Vec<usize>| #[trigger]
        planners.threshold.requires((depth, extents))
    &&& forall|n: usize, plan: LocalR2cPlan| #[trigger]
        planners.r2c.ensures((n,), Ok(plan)) ==> plan.wf() && plan.real_len == n
}

/// The words of a plan are agreed on, or not: an own descriptor is what describes the plan, and there
/// is one where room for it was granted.
pub open spec fn r2c_words_given<H: Fn([u64; 5]) -> bool, D: Fn(Option<Vec<u64>>, Option<usize>) -> Result<Vec<u64>, FftError>, A: Fn(bool) -> bool, P: Fn([usize; N]) -> Result<Pencil<N, M>, FftError>, Q: Fn(Pencil<N, M>, [usize; N], bool) -> Result<RouteCandidate<N, M>, FftError>, T: Fn(&Vec<Stage<N, M>>, &Vec<usize>, &ExtraShape, TransposeMethod, usize) -> Result<TransitionPlan, FftError>, const N: usize, const M: usize>(
    world: World<H, D, A, P, Q, T>,
    facts: R2cFacts<M>,
    request: PlanRequest<AxisSelection<N>, N, M>,
    granted: bool,
    outcome: Result<Vec<u64>, FftError>,
) -> bool {
    exists|header: [u64; 5], own: Option<Vec<u64>>, len: Option<usize>|
        {
            &&& #[trigger] words_agreed(world.header, world.descriptor, header, own, len, outcome)
            &&& len == spec_descriptor_len(
                N as int,
                M as int,
                request.extra_shape.dimensions@.len() as int,
            )
            &&& operation_word_of(Operation::Plan { family: PlanFamily::R2c }) matches Some(word)
                && header@ == header_words(word, N as int, M as int, len)
            &&& own is Some <==> granted
            &&& own is Some ==> own->0@ == descriptor_words(
                request.global_shape@,
                facts.process_grid@,
                request.extra_shape.dimensions@,
                VALUE_KIND_R2C,
                facts.scalar_bytes,
                selection_words(request.transform),
                request.layout,
            )
        }
}

fn agree_r2c_words<H: Fn([u64; 5]) -> bool, D: Fn(Option<Vec<u64>>, Option<usize>) -> Result<Vec<u64>, FftError>, A: Fn(bool) -> bool, P: Fn([usize; N]) -> Result<Pencil<N, M>, FftError>, Q: Fn(Pencil<N, M>, [usize; N], bool) -> Result<RouteCandidate<N, M>, FftError>, T: Fn(&Vec<Stage<N, M>>, &Vec<usize>, &ExtraShape, TransposeMethod, usize) -> Result<TransitionPlan, FftError>, const N: usize, const M: usize>(
    room: Option<Vec<u64>>,
    world: &World<H, D, A, P, Q, T>,
    facts: &R2cFacts<M>,
    request: &PlanRequest<AxisSelection<N>, N, M>,
) -> (outcome: Result<Vec<u64>, FftError>)
    requires
        is_empty_room(room),
        world_answers(*world),
    ensures
        r2c_words_given(*world, *facts, *request, room is Some, outcome),
{
    let len: Option<usize> = descriptor_len::<N, M>(&request.extra_shape);
    let own: Option<Vec<u64>> = write_descriptor(
        room,
        &facts.process_grid,
        &request.global_shape,
        &request.extra_shape,
        &request.transform,
        VALUE_KIND_R2C,
        facts.scalar_bytes,
        request.layout,
    );
    proof {
        if room is Some {
            lemma_empty_front(
                room->0@,
                descriptor_words(
                    request.global_shape@,
                    facts.process_grid@,
                    request.extra_shape.dimensions@,
                    VALUE_KIND_R2C,
                    facts.scalar_bytes,
                    selection_words(request.transform),
                    request.layout,
                ),
            );
        }
    }
    let header: [u64; 5] = mixed_header::<N, M>(
        word_for(Operation::Plan { family: PlanFamily::R2c }),
        len,
    );
    agree_words(&world.header, &world.descriptor, header, own, len)
}

/// The last selected axis is reduced.
pub open spec fn is_reduction_axis<const N: usize>(selection: AxisSelection<N>, axis: int) -> bool {
    &&& selection.spec_contains(axis)
    &&& forall|other: int| axis < other < N ==> !#[trigger] selection.mask@[other]
}

/// No axis is selected.
pub open spec fn selects_none<const N: usize>(selection: AxisSelection<N>) -> bool {
    forall|axis: int| 0 <= axis < N ==> !#[trigger] selection.mask@[axis]
}

/// The extents behind the boundary.
pub open spec fn reduced_extents(shape: Seq<usize>, axis: int) -> Seq<usize> {
    shape.update(axis, (shape[axis] / 2 + 1) as usize)
}

/// Returns the extents behind the boundary.
pub fn reduce_extents<const N: usize>(shape: &[usize; N], axis: usize) -> (reduced: [usize; N])
    requires
        axis < N,
    ensures
        reduced@ == reduced_extents(shape@, axis as int),
{
    let mut reduced: [usize; N] = *shape;
    reduced[axis] = shape[axis] / 2 + 1;
    reduced
}

/// The process dimensions that exchanges go over: as on the original route before the boundary,
/// as on the reduced one behind it.
pub open spec fn joined_dimensions(original: Seq<usize>, reduced: Seq<usize>, boundary: int) -> Seq<usize> {
    Seq::new(
        original.len(),
        |i: int|
            if i < boundary {
                original[i]
            } else {
                reduced[i]
            },
    )
}

/// Lists the process dimensions that exchanges go over in `room`.
pub fn join_dimensions_in(
    room: Option<Vec<usize>>,
    original: &Vec<usize>,
    reduced: &Vec<usize>,
    boundary: usize,
) -> (result: Result<Vec<usize>, FftError>)
    requires
        is_empty_room(room),
        original@.len() == reduced@.len(),
    ensures
        match room {
            Some(_) => result matches Ok(joined) && joined@ == joined_dimensions(
                original@,
                reduced@,
                boundary as int,
            ),
            None => result == Err::<Vec<usize>, FftError>(
                FftError::AllocationFailed { required: original@.len() as usize },
            ),
        },
{
    let count: usize = original.len();
    let mut joined: Vec<usize> = match room {
        Some(joined) => joined,
        None => {
            return Err(FftError::AllocationFailed { required: count });
        },
    };
    let ghost all = joined_dimensions(original@, reduced@, boundary as int);
    let mut index: usize = 0;
    while index < count
        invariant
            index <= count,
            count == original@.len(),
            original@.len() == reduced@.len(),
            all == joined_dimensions(original@, reduced@, boundary as int),
            joined@ == all.take(index as int),
        decreases count - index,
    {
        joined.push(
            if index < boundary {
                original[index]
            } else {
                reduced[index]
            },
        );
        index += 1;
        assert(joined@ =~= all.take(index as int));
    }
    assert(all.take(count as int) =~= all);
    Ok(joined)
}

/// Returns the process dimensions that exchanges go over, unless there is no room for them. Whether
/// there is rests on the machine; [`join_dimensions_in`] says what follows for each answer.
pub fn join_dimensions(original: &Vec<usize>, reduced: &Vec<usize>, boundary: usize) -> (result:
    Result<Vec<usize>, FftError>)
    requires
        original@.len() == reduced@.len(),
    ensures
        match result {
            Ok(joined) => joined@ == joined_dimensions(original@, reduced@, boundary as int),
            Err(error) => error == (FftError::AllocationFailed {
                required: original@.len() as usize,
            }),
        },
{
    let room: Option<Vec<usize>> = room_for(original.len());
    join_dimensions_in(room, original, reduced, boundary)
}

/// Elements of the line that a complex stage keeps for lines that do not lie in one piece.
pub open spec fn strided_c2c_line<const N: usize, const M: usize>(
    stage: Stage<N, M>,
    local: LocalTransform,
) -> usize {
    match local {
        LocalTransform::Complex(plan) => strided_line(
            stage.input,
            stage.axis as int,
            plan.line_len,
        ),
        _ => 0,
    }
}

/// The lines of complex stages that do not lie in one piece.
pub open spec fn strided_c2c_lines<const N: usize, const M: usize>(
    stages: Seq<Stage<N, M>>,
    locals: Seq<LocalTransform>,
) -> Seq<usize> {
    Seq::new(stages.len(), |i: int| strided_c2c_line(stages[i], locals[i]))
}

/// A stage whose lines cannot be placed though it has a kernel.
pub open spec fn unplaced_c2c<const N: usize, const M: usize>(
    stages: Seq<Stage<N, M>>,
    locals: Seq<LocalTransform>,
    i: int,
) -> bool {
    &&& locals[i] !is Identity
    &&& stages[i].input.stride_along(stages[i].axis as int) is None
}

/// Returns the longest line of complex stages whose lines do not lie in one piece.
pub fn strided_complex_line_len<const N: usize, const M: usize>(
    stages: &Vec<Stage<N, M>>,
    locals: &Vec<LocalTransform>,
) -> (result: Result<usize, FftError>)
    requires
        stages_wf(stages@),
        locals@.len() == stages@.len(),
    ensures
        match result {
            Ok(len) => len == largest_of(strided_c2c_lines(stages@, locals@)),
            Err(error) => error == FftError::PreparationFailed && exists|i: int|
                0 <= i < stages@.len() && #[trigger] unplaced_c2c(stages@, locals@, i),
        },
{
    let mut required: usize = 0;
    let mut index: usize = 0;
    let ghost lines = strided_c2c_lines(stages@, locals@);
    assert(lines.take(0) =~= Seq::<usize>::empty());
    while index < stages.len()
        invariant
            index <= stages@.len(),
            stages_wf(stages@),
            locals@.len() == stages@.len(),
            lines == strided_c2c_lines(stages@, locals@),
            required == largest_of(lines.take(index as int)),
        decreases stages@.len() - index,
    {
        proof {
            assert(lines.take(index + 1) =~= lines.take(index as int).push(lines[index as int]));
            lemma_largest_push(lines.take(index as int), lines[index as int]);
            assert(stages@[index as int].wf());
        }
        match locals[index] {
            LocalTransform::Complex(plan) => match memory_stride(
                &stages[index].input,
                stages[index].axis,
            ) {
                Ok(stride) => {
                    if stride > 1 {
                        required = max_len(required, plan.line_len);
                    }
                },
                Err(error) => {
                    assert(unplaced_c2c(stages@, locals@, index as int));
                    return Err(FftError::PreparationFailed);
                },
            },
            _ => {},
        }
        index += 1;
    }
    assert(lines.take(index as int) =~= lines);
    Ok(required)
}

/// `depth` is the depth of the complex transforms behind the boundary.
pub open spec fn depth_of<const N: usize>(
    shape: Seq<usize>,
    selection: AxisSelection<N>,
    axis: nat,
    depth: u64,
) -> bool {
    exists|exponents: Seq<nat>| #[trigger] is_depth(shape, selection, axis, exponents, depth as int)
}

/// What the threshold of a plan comes to.
pub open spec fn threshold_given<X: Fn(usize) -> Result<LocalC2cPlan, LocalC2cError>, Y: Fn(usize) -> Result<LocalR2cPlan, LocalR2cError>, E: Fn(u64, &Vec<usize>) -> Result<u64, FftError>, const N: usize, const M: usize>(
    planners: R2cPlanners<X, Y, E>,
    request: PlanRequest<AxisSelection<N>, N, M>,
    axis: int,
    outcome: Result<u64, FftError>,
) -> bool {
    exists|depth: u64, extents: &Vec<usize>|
        {
            &&& #[trigger] planners.threshold.ensures((depth, extents), outcome)
            &&& depth_of(request.global_shape@, request.transform, axis as nat, depth)
            &&& extents@ == selected_extents(
                request.global_shape@,
                request.transform,
                axis as nat,
            )
        }
}

fn ask_threshold<X: Fn(usize) -> Result<LocalC2cPlan, LocalC2cError>, Y: Fn(usize) -> Result<LocalR2cPlan, LocalR2cError>, E: Fn(u64, &Vec<usize>) -> Result<u64, FftError>, const N: usize, const M: usize>(
    planners: &R2cPlanners<X, Y, E>,
    request: &PlanRequest<AxisSelection<N>, N, M>,
    axis: usize,
) -> (outcome: Result<u64, FftError>)
    requires
        r2c_planners_answer(*planners),
        axis < N,
        N <= 0xffff_ffff,
    ensures
        threshold_given(*planners, *request, axis as int, outcome),
{
    let depth: u64 = normalization_depth(&request.global_shape, &request.transform, axis);
    let extents: Vec<usize> = transverse_extents(&request.global_shape, &request.transform, axis);
    let question = &planners.threshold;
    let given: &Vec<usize> = &extents;
    let outcome = question(depth, given);
    assert(depth_of(request.global_shape@, request.transform, axis as nat, depth));
    assert(planners.threshold.ensures((depth, given), outcome));
    outcome
}

/// The route of the original extents.
pub open spec fn original_routed<H: Fn([u64; 5]) -> bool, D: Fn(Option<Vec<u64>>, Option<usize>) -> Result<Vec<u64>, FftError>, A: Fn(bool) -> bool, P: Fn([usize; N]) -> Result<Pencil<N, M>, FftError>, Q: Fn(Pencil<N, M>, [usize; N], bool) -> Result<RouteCandidate<N, M>, FftError>, T: Fn(&Vec<Stage<N, M>>, &Vec<usize>, &ExtraShape, TransposeMethod, usize) -> Result<TransitionPlan, FftError>, const N: usize, const M: usize>(
    world: World<H, D, A, P, Q, T>,
    request: PlanRequest<AxisSelection<N>, N, M>,
    outcome: Result<RouteCandidate<N, M>, FftError>,
) -> bool {
    exists|input: Pencil<N, M>|
        {
            &&& input_given(world.pencil, request, Ok(input))
            &&& #[trigger] world.route.ensures(
                (input, request.global_shape, request.layout.permute_dims),
                outcome,
            )
        }
}

/// The canonical layout of the reduced extents.
pub open spec fn reduced_input_given<H: Fn([u64; 5]) -> bool, D: Fn(Option<Vec<u64>>, Option<usize>) -> Result<Vec<u64>, FftError>, A: Fn(bool) -> bool, P: Fn([usize; N]) -> Result<Pencil<N, M>, FftError>, Q: Fn(Pencil<N, M>, [usize; N], bool) -> Result<RouteCandidate<N, M>, FftError>, T: Fn(&Vec<Stage<N, M>>, &Vec<usize>, &ExtraShape, TransposeMethod, usize) -> Result<TransitionPlan, FftError>, const N: usize, const M: usize>(
    world: World<H, D, A, P, Q, T>,
    shape: Seq<usize>,
    axis: int,
    outcome: Result<Pencil<N, M>, FftError>,
) -> bool {
    exists|reduced: [usize; N]|
        {
            &&& reduced@ == reduced_extents(shape, axis)
            &&& #[trigger] world.pencil.ensures((reduced,), outcome)
        }
}

/// The route of the reduced extents.
pub open spec fn reduced_routed<H: Fn([u64; 5]) -> bool, D: Fn(Option<Vec<u64>>, Option<usize>) -> Result<Vec<u64>, FftError>, A: Fn(bool) -> bool, P: Fn([usize; N]) -> Result<Pencil<N, M>, FftError>, Q: Fn(Pencil<N, M>, [usize; N], bool) -> Result<RouteCandidate<N, M>, FftError>, T: Fn(&Vec<Stage<N, M>>, &Vec<usize>, &ExtraShape, TransposeMethod, usize) -> Result<TransitionPlan, FftError>, const N: usize, const M: usize>(
    world: World<H, D, A, P, Q, T>,
    shape: Seq<usize>,
    permute: bool,
    axis: int,
    outcome: Result<RouteCandidate<N, M>, FftError>,
) -> bool {
    exists|input: Pencil<N, M>, reduced: [usize; N]|
        {
            &&& reduced_input_given(world, shape, axis, Ok(input))
            &&& reduced@ == reduced_extents(shape, axis)
            &&& #[trigger] world.route.ensures((input, reduced, permute), outcome)
        }
}

/// The two routes of a plan whose boundary lies on `axis`.
pub open spec fn r2c_routed<H: Fn([u64; 5]) -> bool, D: Fn(Option<Vec<u64>>, Option<usize>) -> Result<Vec<u64>, FftError>, A: Fn(bool) -> bool, P: Fn([usize; N]) -> Result<Pencil<N, M>, FftError>, Q: Fn(Pencil<N, M>, [usize; N], bool) -> Result<RouteCandidate<N, M>, FftError>, T: Fn(&Vec<Stage<N, M>>, &Vec<usize>, &ExtraShape, TransposeMethod, usize) -> Result<TransitionPlan, FftError>, const N: usize, const M: usize>(
    world: World<H, D, A, P, Q, T>,
    request: PlanRequest<AxisSelection<N>, N, M>,
    axis: int,
    routes: RoutePair<N, M>,
) -> bool {
    &&& is_reduction_axis(request.transform, axis)
    &&& original_routed(world, request, Ok(routes.original_route))
    &&& reduced_routed(
        world,
        request.global_shape@,
        request.layout.permute_dims,
        axis,
        Ok(routes.reduced_route),
    )
    &&& routes.original_shape == request.global_shape
    &&& routes.reduced_shape@ == reduced_extents(request.global_shape@, axis)
}

/// The stages along two routes, with the kernels that the planners gave.
pub open spec fn r2c_stages_hold<X: Fn(usize) -> Result<LocalC2cPlan, LocalC2cError>, Y: Fn(usize) -> Result<LocalR2cPlan, LocalR2cError>, E: Fn(u64, &Vec<usize>) -> Result<u64, FftError>, const N: usize, const M: usize>(
    planners: R2cPlanners<X, Y, E>,
    routes: RoutePair<N, M>,
    selection: AxisSelection<N>,
    boundary: int,
    stages: Seq<Stage<N, M>>,
    locals: Seq<LocalTransform>,
) -> bool {
    &&& stages.len() == N
    &&& locals.len() == N
    &&& forall|i: int| 0 <= i < N ==> #[trigger] stages[i] == routes.stage_at(boundary, i)
    &&& forall|i: int|
        0 <= i < N ==> r2c_stage_at(
            planners.c2c,
            planners.r2c,
            routes,
            selection,
            boundary,
            i,
            Ok(#[trigger] locals[i]),
        )
}

/// The outcome of preparing stages along two routes, where room for them was granted or not.
pub open spec fn r2c_stages_given<X: Fn(usize) -> Result<LocalC2cPlan, LocalC2cError>, Y: Fn(usize) -> Result<LocalR2cPlan, LocalR2cError>, E: Fn(u64, &Vec<usize>) -> Result<u64, FftError>, const N: usize, const M: usize>(
    planners: R2cPlanners<X, Y, E>,
    routes: RoutePair<N, M>,
    selection: AxisSelection<N>,
    boundary: int,
    granted: bool,
    outcome: Result<StagePreparation<N, M>, R2cError>,
) -> bool {
    if !routes.complete() {
        outcome == Err::<StagePreparation<N, M>, R2cError>(
            R2cError::Fft(FftError::PreparationFailed),
        )
    } else if !granted {
        outcome == Err::<StagePreparation<N, M>, R2cError>(
            R2cError::Fft(FftError::AllocationFailed { required: N }),
        )
    } else {
        match outcome {
            Ok(prepared) => {
                &&& r2c_stages_hold(
                    planners,
                    routes,
                    selection,
                    boundary,
                    prepared.stages@,
                    prepared.locals@,
                )
                &&& prepared.fft_scratch_len == largest_of(
                    prepared.locals@.map_values(|local: LocalTransform| local.spec_scratch_len()),
                )
            },
            Err(error) => exists|i: int|
                0 <= i < N && #[trigger] r2c_stage_at(
                    planners.c2c,
                    planners.r2c,
                    routes,
                    selection,
                    boundary,
                    i,
                    Err(error),
                ) && r2c_stages_before(
                    planners.c2c,
                    planners.r2c,
                    routes,
                    selection,
                    boundary,
                    i,
                ),
        }
    }
}

/// The routes have as many exchanges as there are steps between axes.
pub open spec fn dimensions_fit<const N: usize, const M: usize>(routes: RoutePair<N, M>) -> bool {
    &&& routes.original_route.distributed@.len() == N - 1
    &&& routes.reduced_route.distributed@.len() == N - 1
}

/// A plan that was built in `rooms`: all questions were answered, and the plan holds the answers.
pub open spec fn r2c_built_in<H: Fn([u64; 5]) -> bool, D: Fn(Option<Vec<u64>>, Option<usize>) -> Result<Vec<u64>, FftError>, A: Fn(bool) -> bool, P: Fn([usize; N]) -> Result<Pencil<N, M>, FftError>, Q: Fn(Pencil<N, M>, [usize; N], bool) -> Result<RouteCandidate<N, M>, FftError>, T: Fn(&Vec<Stage<N, M>>, &Vec<usize>, &ExtraShape, TransposeMethod, usize) -> Result<TransitionPlan, FftError>, X: Fn(usize) -> Result<LocalC2cPlan, LocalC2cError>, Y: Fn(usize) -> Result<LocalR2cPlan, LocalR2cError>, E: Fn(u64, &Vec<usize>) -> Result<u64, FftError>, const N: usize, const M: usize>(
    world: World<H, D, A, P, Q, T>,
    planners: R2cPlanners<X, Y, E>,
    facts: R2cFacts<M>,
    request: PlanRequest<AxisSelection<N>, N, M>,
    rooms: Rooms<N, M>,
    core: TransformPlanCore<N, M>,
) -> bool {
    let axis = N - 1 - core.boundary;
    exists|routes: RoutePair<N, M>, exchanges: TransitionPlan|
        {
            &&& r2c_words_given(world, facts, request, rooms.words is Some, Ok(core.descriptor))
            &&& threshold_given(planners, request, axis, Ok(core.raw_absolute_threshold))
            &&& #[trigger] r2c_routed(world, request, axis, routes)
            &&& rooms.stages is Some
            &&& rooms.dimensions is Some
            &&& routes.complete()
            &&& dimensions_fit(routes)
            &&& r2c_stages_hold(
                planners,
                routes,
                request.transform,
                core.boundary as int,
                core.stages@,
                core.locals@,
            )
            &&& #[trigger] transitions_given(
                world.transitions,
                core.stages@,
                joined_dimensions(
                    routes.original_route.distributed@,
                    routes.reduced_route.distributed@,
                    core.boundary as int,
                ),
                request.extra_shape,
                request.layout.transpose_method,
                core.boundary,
                Ok(exchanges),
            )
            &&& core.transitions == exchanges.transitions
            &&& core.lens.send == exchanges.send_len
            &&& core.lens.receive == exchanges.receive_len
            &&& core.real_lens.send == exchanges.real_send_len
            &&& core.real_lens.receive == exchanges.real_receive_len
        }
}

/// A list that there was no room for, here or elsewhere.
pub open spec fn list_unplaced<V, A: Fn(bool) -> bool>(
    agree: A,
    required: int,
    granted: bool,
    error: R2cError,
) -> bool {
    exists|local: Result<V, FftError>|
        {
            &&& #[trigger] settled::<V, R2cError, A>(agree, lifted(local), Err(error))
            &&& local is Ok <==> granted
            &&& local is Err ==> local->Err_0 == (FftError::AllocationFailed {
                required: required as usize,
            })
        }
}

/// Why the stages of a plan could not be joined by exchanges, or their lines not be placed.
pub open spec fn r2c_join_refused<H: Fn([u64; 5]) -> bool, D: Fn(Option<Vec<u64>>, Option<usize>) -> Result<Vec<u64>, FftError>, A: Fn(bool) -> bool, P: Fn([usize; N]) -> Result<Pencil<N, M>, FftError>, Q: Fn(Pencil<N, M>, [usize; N], bool) -> Result<RouteCandidate<N, M>, FftError>, T: Fn(&Vec<Stage<N, M>>, &Vec<usize>, &ExtraShape, TransposeMethod, usize) -> Result<TransitionPlan, FftError>, const N: usize, const M: usize>(
    world: World<H, D, A, P, Q, T>,
    request: PlanRequest<AxisSelection<N>, N, M>,
    axis: int,
    routes: RoutePair<N, M>,
    prepared: StagePreparation<N, M>,
    granted: bool,
    error: R2cError,
) -> bool {
    let joined = joined_dimensions(
        routes.original_route.distributed@,
        routes.reduced_route.distributed@,
        N - 1 - axis,
    );
    let boundary = (N - 1 - axis) as usize;
    if !dimensions_fit(routes) {
        error == R2cError::Fft(FftError::PreparationFailed)
    } else {
        ||| list_unplaced::<Vec<usize>, A>(world.agree, N - 1, granted, error)
        ||| granted && exists|fault: FftError|
            {
                &&& #[trigger] transitions_given(
                    world.transitions,
                    prepared.stages@,
                    joined,
                    request.extra_shape,
                    request.layout.transpose_method,
                    boundary,
                    Err(fault),
                )
                &&& error == R2cError::Fft(fault)
            }
        ||| granted && exists|exchanges: TransitionPlan|
            {
                &&& #[trigger] transitions_given(
                    world.transitions,
                    prepared.stages@,
                    joined,
                    request.extra_shape,
                    request.layout.transpose_method,
                    boundary,
                    Ok(exchanges),
                )
                &&& error == R2cError::Fft(FftError::PreparationFailed)
                &&& exists|i: int|
                    0 <= i < N && #[trigger] unplaced_c2c(prepared.stages@, prepared.locals@, i)
            }
    }
}

/// Why a plan whose boundary lies on `axis` was not routed.
pub open spec fn r2c_unrouted<H: Fn([u64; 5]) -> bool, D: Fn(Option<Vec<u64>>, Option<usize>) -> Result<Vec<u64>, FftError>, A: Fn(bool) -> bool, P: Fn([usize; N]) -> Result<Pencil<N, M>, FftError>, Q: Fn(Pencil<N, M>, [usize; N], bool) -> Result<RouteCandidate<N, M>, FftError>, T: Fn(&Vec<Stage<N, M>>, &Vec<usize>, &ExtraShape, TransposeMethod, usize) -> Result<TransitionPlan, FftError>, const N: usize, const M: usize>(
    world: World<H, D, A, P, Q, T>,
    request: PlanRequest<AxisSelection<N>, N, M>,
    axis: int,
    error: R2cError,
) -> bool {
    let shape = request.global_shape@;
    ||| exists|local: Result<RouteCandidate<N, M>, FftError>| #[trigger]
        original_routed(world, request, local) && settled::<RouteCandidate<N, M>, R2cError, A>(
            world.agree,
            lifted(local),
            Err(error),
        )
    ||| exists|original: RouteCandidate<N, M>, local: Result<Pencil<N, M>, FftError>|
        {
            &&& #[trigger] original_routed(world, request, Ok(original))
            &&& #[trigger] reduced_input_given(world, shape, axis, local)
            &&& settled::<Pencil<N, M>, R2cError, A>(world.agree, lifted(local), Err(error))
        }
    ||| exists|original: RouteCandidate<N, M>, local: Result<RouteCandidate<N, M>, FftError>|
        {
            &&& #[trigger] original_routed(world, request, Ok(original))
            &&& #[trigger] reduced_routed(
                world,
                shape,
                request.layout.permute_dims,
                axis,
                local,
            )
            &&& settled::<RouteCandidate<N, M>, R2cError, A>(
                world.agree,
                lifted(local),
                Err(error),
            )
        }
}

/// Why a plan with routes was not built in `rooms`.
pub open spec fn r2c_routes_refused<H: Fn([u64; 5]) -> bool, D: Fn(Option<Vec<u64>>, Option<usize>) -> Result<Vec<u64>, FftError>, A: Fn(bool) -> bool, P: Fn([usize; N]) -> Result<Pencil<N, M>, FftError>, Q: Fn(Pencil<N, M>, [usize; N], bool) -> Result<RouteCandidate<N, M>, FftError>, T: Fn(&Vec<Stage<N, M>>, &Vec<usize>, &ExtraShape, TransposeMethod, usize) -> Result<TransitionPlan, FftError>, X: Fn(usize) -> Result<LocalC2cPlan, LocalC2cError>, Y: Fn(usize) -> Result<LocalR2cPlan, LocalR2cError>, E: Fn(u64, &Vec<usize>) -> Result<u64, FftError>, const N: usize, const M: usize>(
    world: World<H, D, A, P, Q, T>,
    planners: R2cPlanners<X, Y, E>,
    request: PlanRequest<AxisSelection<N>, N, M>,
    rooms: Rooms<N, M>,
    axis: int,
    routes: RoutePair<N, M>,
    error: R2cError,
) -> bool {
    ||| exists|local: Result<StagePreparation<N, M>, R2cError>|
        {
            &&& #[trigger] r2c_stages_given(
                planners,
                routes,
                request.transform,
                N - 1 - axis,
                rooms.stages is Some,
                local,
            )
            &&& settled::<StagePreparation<N, M>, R2cError, A>(world.agree, local, Err(error))
        }
    ||| exists|prepared: StagePreparation<N, M>|
        {
            &&& r2c_stages_given(
                planners,
                routes,
                request.transform,
                N - 1 - axis,
                rooms.stages is Some,
                Ok(prepared),
            )
            &&& #[trigger] r2c_join_refused(
                world,
                request,
                axis,
                routes,
                prepared,
                rooms.dimensions is Some,
                error,
            )
        }
}

/// Why a plan whose boundary lies on `axis` was not built in `rooms`: the first question that
/// failed, or that another process could not answer.
pub open spec fn r2c_axis_refused<H: Fn([u64; 5]) -> bool, D: Fn(Option<Vec<u64>>, Option<usize>) -> Result<Vec<u64>, FftError>, A: Fn(bool) -> bool, P: Fn([usize; N]) -> Result<Pencil<N, M>, FftError>, Q: Fn(Pencil<N, M>, [usize; N], bool) -> Result<RouteCandidate<N, M>, FftError>, T: Fn(&Vec<Stage<N, M>>, &Vec<usize>, &ExtraShape, TransposeMethod, usize) -> Result<TransitionPlan, FftError>, X: Fn(usize) -> Result<LocalC2cPlan, LocalC2cError>, Y: Fn(usize) -> Result<LocalR2cPlan, LocalR2cError>, E: Fn(u64, &Vec<usize>) -> Result<u64, FftError>, const N: usize, const M: usize>(
    world: World<H, D, A, P, Q, T>,
    planners: R2cPlanners<X, Y, E>,
    request: PlanRequest<AxisSelection<N>, N, M>,
    rooms: Rooms<N, M>,
    axis: int,
    error: R2cError,
) -> bool {
    ||| exists|local: Result<Pencil<N, M>, FftError>| #[trigger]
        input_given(world.pencil, request, local) && settled::<Pencil<N, M>, R2cError, A>(
            world.agree,
            lifted(local),
            Err(error),
        )
    ||| exists|input: Pencil<N, M>, local: Result<u64, FftError>|
        {
            &&& #[trigger] input_given(world.pencil, request, Ok(input))
            &&& #[trigger] threshold_given(planners, request, axis, local)
            &&& settled::<u64, R2cError, A>(world.agree, lifted(local), Err(error))
        }
    ||| exists|threshold: u64|
        {
            &&& #[trigger] threshold_given(planners, request, axis, Ok(threshold))
            &&& r2c_unrouted(world, request, axis, error)
        }
    ||| exists|threshold: u64, routes: RoutePair<N, M>|
        {
            &&& #[trigger] threshold_given(planners, request, axis, Ok(threshold))
            &&& #[trigger] r2c_routed(world, request, axis, routes)
            &&& r2c_routes_refused(world, planners, request, rooms, axis, routes, error)
        }
}

/// Why a plan was not built in `rooms`: the first question that failed, or that another process could
/// not answer.
pub open spec fn r2c_refused_in<H: Fn([u64; 5]) -> bool, D: Fn(Option<Vec<u64>>, Option<usize>) -> Result<Vec<u64>, FftError>, A: Fn(bool) -> bool, P: Fn([usize; N]) -> Result<Pencil<N, M>, FftError>, Q: Fn(Pencil<N, M>, [usize; N], bool) -> Result<RouteCandidate<N, M>, FftError>, T: Fn(&Vec<Stage<N, M>>, &Vec<usize>, &ExtraShape, TransposeMethod, usize) -> Result<TransitionPlan, FftError>, X: Fn(usize) -> Result<LocalC2cPlan, LocalC2cError>, Y: Fn(usize) -> Result<LocalR2cPlan, LocalR2cError>, E: Fn(u64, &Vec<usize>) -> Result<u64, FftError>, const N: usize, const M: usize>(
    world: World<H, D, A, P, Q, T>,
    planners: R2cPlanners<X, Y, E>,
    facts: R2cFacts<M>,
    request: PlanRequest<AxisSelection<N>, N, M>,
    rooms: Rooms<N, M>,
    error: R2cError,
) -> bool {
    ||| exists|fault: FftError| #[trigger]
        r2c_words_given(world, facts, request, rooms.words is Some, Err(fault)) && error
            == R2cError::Fft(fault)
    ||| exists|words: Vec<u64>|
        {
            &&& #[trigger] r2c_words_given(world, facts, request, rooms.words is Some, Ok(words))
            &&& error == R2cError::Fft(FftError::InvalidDimensions)
            &&& selects_none(request.transform) || world.agree.ensures((true,), false)
        }
    ||| exists|words: Vec<u64>, axis: int|
        {
            &&& #[trigger] r2c_words_given(world, facts, request, rooms.words is Some, Ok(words))
            &&& is_reduction_axis(request.transform, axis)
            &&& #[trigger] r2c_axis_refused(world, planners, request, rooms, axis, error)
        }
}

/// A plan that was built in whatever rooms there were.
pub open spec fn r2c_built<H: Fn([u64; 5]) -> bool, D: Fn(Option<Vec<u64>>, Option<usize>) -> Result<Vec<u64>, FftError>, A: Fn(bool) -> bool, P: Fn([usize; N]) -> Result<Pencil<N, M>, FftError>, Q: Fn(Pencil<N, M>, [usize; N], bool) -> Result<RouteCandidate<N, M>, FftError>, T: Fn(&Vec<Stage<N, M>>, &Vec<usize>, &ExtraShape, TransposeMethod, usize) -> Result<TransitionPlan, FftError>, X: Fn(usize) -> Result<LocalC2cPlan, LocalC2cError>, Y: Fn(usize) -> Result<LocalR2cPlan, LocalR2cError>, E: Fn(u64, &Vec<usize>) -> Result<u64, FftError>, const N: usize, const M: usize>(
    world: World<H, D, A, P, Q, T>,
    planners: R2cPlanners<X, Y, E>,
    facts: R2cFacts<M>,
    request: PlanRequest<AxisSelection<N>, N, M>,
    core: TransformPlanCore<N, M>,
) -> bool {
    exists|rooms: Rooms<N, M>| #[trigger]
        r2c_built_in(world, planners, facts, request, rooms, core)
}

/// Why a plan was not built in whatever rooms there were.
pub open spec fn r2c_refused<H: Fn([u64; 5]) -> bool, D: Fn(Option<Vec<u64>>, Option<usize>) -> Result<Vec<u64>, FftError>, A: Fn(bool) -> bool, P: Fn([usize; N]) -> Result<Pencil<N, M>, FftError>, Q: Fn(Pencil<N, M>, [usize; N], bool) -> Result<RouteCandidate<N, M>, FftError>, T: Fn(&Vec<Stage<N, M>>, &Vec<usize>, &ExtraShape, TransposeMethod, usize) -> Result<TransitionPlan, FftError>, X: Fn(usize) -> Result<LocalC2cPlan, LocalC2cError>, Y: Fn(usize) -> Result<LocalR2cPlan, LocalR2cError>, E: Fn(u64, &Vec<usize>) -> Result<u64, FftError>, const N: usize, const M: usize>(
    world: World<H, D, A, P, Q, T>,
    planners: R2cPlanners<X, Y, E>,
    facts: R2cFacts<M>,
    request: PlanRequest<AxisSelection<N>, N, M>,
    error: R2cError,
) -> bool {
    exists|rooms: Rooms<N, M>| #[trigger]
        r2c_refused_in(world, planners, facts, request, rooms, error)
}

/// The longest complex line of a plan that does not lie in one piece, the boundary included.
pub open spec fn longest_strided<const N: usize, const M: usize>(core: TransformPlanCore<N, M>) -> usize {
    let lines = largest_of(strided_c2c_lines(core.stages@, core.locals@));
    match core.boundary_stride() {
        Some(stride) => if stride > 1 {
            larger(lines, core.plan().complex_len)
        } else {
            lines
        },
        None => lines,
    }
}

/// Finds the two routes of a plan whose boundary lies on `axis`.
fn find_routes<H: Fn([u64; 5]) -> bool, D: Fn(Option<Vec<u64>>, Option<usize>) -> Result<Vec<u64>, FftError>, A: Fn(bool) -> bool, P: Fn([usize; N]) -> Result<Pencil<N, M>, FftError>, Q: Fn(Pencil<N, M>, [usize; N], bool) -> Result<RouteCandidate<N, M>, FftError>, T: Fn(&Vec<Stage<N, M>>, &Vec<usize>, &ExtraShape, TransposeMethod, usize) -> Result<TransitionPlan, FftError>, const N: usize, const M: usize>(
    world: &World<H, D, A, P, Q, T>,
    request: &PlanRequest<AxisSelection<N>, N, M>,
    input: Pencil<N, M>,
    axis: usize,
) -> (result: Result<RoutePair<N, M>, R2cError>)
    requires
        world_answers(*world),
        axis < N,
        is_reduction_axis(request.transform, axis as int),
        input_given(world.pencil, *request, Ok(input)),
    ensures
        match result {
            Ok(routes) => routes.wf() && r2c_routed(*world, *request, axis as int, routes),
            Err(error) => r2c_unrouted(*world, *request, axis as int, error),
        },
{
    let permute: bool = request.layout.permute_dims;
    let question = &world.route;
    let routed = question(input, request.global_shape, permute);
    assert(original_routed(*world, *request, routed));
    let original_route: RouteCandidate<N, M> = match settle(
        &world.agree,
        lift::<RouteCandidate<N, M>, R2cError>(routed),
    ) {
        Ok(route) => route,
        Err(error) => {
            return Err(error);
        },
    };
    assert(original_routed(*world, *request, Ok(original_route)));
    let reduced_shape: [usize; N] = reduce_extents(&request.global_shape, axis);
    let question = &world.pencil;
    let placed = question(reduced_shape);
    assert(reduced_input_given(*world, request.global_shape@, axis as int, placed));
    let reduced_input: Pencil<N, M> = match settle(
        &world.agree,
        lift::<Pencil<N, M>, R2cError>(placed),
    ) {
        Ok(pencil) => pencil,
        Err(error) => {
            return Err(error);
        },
    };
    let question = &world.route;
    let rerouted = question(reduced_input, reduced_shape, permute);
    assert(reduced_input_given(*world, request.global_shape@, axis as int, Ok(reduced_input)));
    assert(reduced_routed(*world, request.global_shape@, permute, axis as int, rerouted));
    let reduced_route: RouteCandidate<N, M> = match settle(
        &world.agree,
        lift::<RouteCandidate<N, M>, R2cError>(rerouted),
    ) {
        Ok(route) => route,
        Err(error) => {
            return Err(error);
        },
    };
    Ok(
        RoutePair {
            original_route,
            reduced_route,
            original_shape: request.global_shape,
            reduced_shape,
        },
    )
}

/// Joins the stages of a plan by exchanges.
fn join_stages<H: Fn([u64; 5]) -> bool, D: Fn(Option<Vec<u64>>, Option<usize>) -> Result<Vec<u64>, FftError>, A: Fn(bool) -> bool, P: Fn([usize; N]) -> Result<Pencil<N, M>, FftError>, Q: Fn(Pencil<N, M>, [usize; N], bool) -> Result<RouteCandidate<N, M>, FftError>, T: Fn(&Vec<Stage<N, M>>, &Vec<usize>, &ExtraShape, TransposeMethod, usize) -> Result<TransitionPlan, FftError>, const N: usize, const M: usize>(
    world: &World<H, D, A, P, Q, T>,
    room: Option<Vec<usize>>,
    request: &PlanRequest<AxisSelection<N>, N, M>,
    axis: usize,
    routes: &RoutePair<N, M>,
    prepared: &StagePreparation<N, M>,
) -> (result: Result<TransitionPlan, R2cError>)
    requires
        world_answers(*world),
        axis < N,
        is_empty_room(room),
    ensures
        match result {
            Ok(exchanges) => {
                &&& room is Some
                &&& dimensions_fit(*routes)
                &&& exchanges.transitions@.len() + 1 == prepared.stages@.len()
                &&& transitions_given(
                    world.transitions,
                    prepared.stages@,
                    joined_dimensions(
                        routes.original_route.distributed@,
                        routes.reduced_route.distributed@,
                        N - 1 - axis,
                    ),
                    request.extra_shape,
                    request.layout.transpose_method,
                    (N - 1 - axis) as usize,
                    Ok(exchanges),
                )
            },
            Err(error) => r2c_join_refused(
                *world,
                *request,
                axis as int,
                *routes,
                *prepared,
                room is Some,
                error,
            ),
        },
{
    if routes.original_route.distributed.len() != N - 1 || routes.reduced_route.distributed.len()
        != N - 1 {
        return Err(R2cError::Fft(FftError::PreparationFailed));
    }
    let boundary: usize = N - 1 - axis;
    let listed = join_dimensions_in(
        room,
        &routes.original_route.distributed,
        &routes.reduced_route.distributed,
        boundary,
    );
    let distributed: Vec<usize> = match settle(
        &world.agree,
        lift::<Vec<usize>, R2cError>(listed),
    ) {
        Ok(list) => list,
        Err(error) => {
            assert(list_unplaced::<Vec<usize>, A>(world.agree, N - 1, room is Some, error));
            return Err(error);
        },
    };
    let question = &world.transitions;
    let exchanged = question(
        &prepared.stages,
        &distributed,
        &request.extra_shape,
        request.layout.transpose_method,
        boundary,
    );
    assert(transitions_given(
        world.transitions,
        prepared.stages@,
        joined_dimensions(
            routes.original_route.distributed@,
            routes.reduced_route.distributed@,
            N - 1 - axis,
        ),
        request.extra_shape,
        request.layout.transpose_method,
        (N - 1 - axis) as usize,
        exchanged,
    ));
    match exchanged {
        Ok(plan) => Ok(plan),
        Err(fault) => Err(R2cError::Fft(fault)),
    }
}

/// Builds a real-to-complex plan in `rooms`. The questions are asked in this order: header,
/// descriptor, selection, input layout, threshold, routes, stages, exchanges.
pub fn construct_r2c_in<H: Fn([u64; 5]) -> bool, D: Fn(Option<Vec<u64>>, Option<usize>) -> Result<Vec<u64>, FftError>, A: Fn(bool) -> bool, P: Fn([usize; N]) -> Result<Pencil<N, M>, FftError>, Q: Fn(Pencil<N, M>, [usize; N], bool) -> Result<RouteCandidate<N, M>, FftError>, T: Fn(&Vec<Stage<N, M>>, &Vec<usize>, &ExtraShape, TransposeMethod, usize) -> Result<TransitionPlan, FftError>, X: Fn(usize) -> Result<LocalC2cPlan, LocalC2cError>, Y: Fn(usize) -> Result<LocalR2cPlan, LocalR2cError>, E: Fn(u64, &Vec<usize>) -> Result<u64, FftError>, const N: usize, const M: usize>(
    rooms: Rooms<N, M>,
    world: &World<H, D, A, P, Q, T>,
    planners: &R2cPlanners<X, Y, E>,
    facts: &R2cFacts<M>,
    request: PlanRequest<AxisSelection<N>, N, M>,
) -> (result: Result<TransformPlanCore<N, M>, R2cError>)
    requires
        rooms.wf(),
        1 <= N <= 0xffff_ffff,
        world_answers(*world),
        r2c_planners_answer(*planners),
        request.extra_shape.wf(),
    ensures
        match result {
            Ok(core) => {
                &&& core.wf()
                &&& core.id == facts.id
                &&& core.extra_shape == request.extra_shape
                &&& core.selection == request.transform
                &&& core.layout == request.layout
                &&& core.lens.fft_scratch == largest_of(
                    core.locals@.map_values(|local: LocalTransform| local.spec_scratch_len()),
                )
                &&& core.real_lens.fft_scratch == core.lens.fft_scratch
                &&& core.strided_line_len == longest_strided(core)
                &&& r2c_built_in(*world, *planners, *facts, request, rooms, core)
            },
            Err(error) => r2c_refused_in(
                *world,
                *planners,
                *facts,
                request,
                rooms,
                error,
            ),
        },
{
    let descriptor: Vec<u64> = match agree_r2c_words(rooms.words, world, facts, &request) {
        Ok(words) => words,
        Err(fault) => {
            return Err(R2cError::Fft(fault));
        },
    };
    assert(r2c_words_given(*world, *facts, request, rooms.words is Some, Ok(descriptor)));
    let selected: Option<usize> = request.transform.largest();
    let question = &world.agree;
    let all_selected: bool = question(selected.is_some());
    let axis: usize = match selected {
        Some(axis) => {
            if !all_selected {
                return Err(R2cError::Fft(FftError::InvalidDimensions));
            }
            axis
        },
        None => {
            return Err(R2cError::Fft(FftError::InvalidDimensions));
        },
    };
    let boundary: usize = N - 1 - axis;
    let found = find_input(&world.pencil, &request);
    let input: Pencil<N, M> = match settle(&world.agree, lift::<Pencil<N, M>, R2cError>(found)) {
        Ok(input) => input,
        Err(error) => {
            assert(r2c_axis_refused(*world, *planners, request, rooms, axis as int, error));
            return Err(error);
        },
    };
    let asked = ask_threshold(planners, &request, axis);
    let raw_absolute_threshold: u64 = match settle(&world.agree, lift::<u64, R2cError>(asked)) {
        Ok(threshold) => threshold,
        Err(error) => {
            assert(r2c_axis_refused(*world, *planners, request, rooms, axis as int, error));
            return Err(error);
        },
    };
    assert(threshold_given(*planners, request, axis as int, Ok(raw_absolute_threshold)));
    let routes: RoutePair<N, M> = match find_routes(
        world,
        &request,
        input,
        axis,
    ) {
        Ok(routes) => routes,
        Err(error) => {
            assert(r2c_axis_refused(*world, *planners, request, rooms, axis as int, error));
            return Err(error);
        },
    };
    let planned = prepare_r2c_stages_in(
        rooms.stages,
        &planners.c2c,
        &planners.r2c,
        &routes,
        axis,
        &request.transform,
    );
    assert(r2c_stages_given(
        *planners,
        routes,
        request.transform,
        N - 1 - axis,
        rooms.stages is Some,
        planned,
    ));
    let prepared: StagePreparation<N, M> = match settle(&world.agree, planned) {
        Ok(prepared) => prepared,
        Err(error) => {
            assert(r2c_routes_refused(
                *world,
                *planners,
                request,
                rooms,
                axis as int,
                routes,
                error,
            ));
            assert(r2c_axis_refused(*world, *planners, request, rooms, axis as int, error));
            return Err(error);
        },
    };
    assert(r2c_stages_given(
        *planners,
        routes,
        request.transform,
        N - 1 - axis,
        rooms.stages is Some,
        Ok(prepared),
    ));
    let exchanges: TransitionPlan = match join_stages(
        world,
        rooms.dimensions,
        &request,
        axis,
        &routes,
        &prepared,
    ) {
        Ok(plan) => plan,
        Err(error) => {
            assert(r2c_routes_refused(
                *world,
                *planners,
                request,
                rooms,
                axis as int,
                routes,
                error,
            ));
            assert(r2c_axis_refused(*world, *planners, request, rooms, axis as int, error));
            return Err(error);
        },
    };
    proof {
        assert(prepared.stages@[boundary as int].wf());
        assert(r2c_stage_at(
            planners.c2c,
            planners.r2c,
            routes,
            request.transform,
            boundary as int,
            boundary as int,
            Ok(prepared.locals@[boundary as int]),
        ));
    }
    let lines: usize = match strided_complex_line_len(&prepared.stages, &prepared.locals) {
        Ok(len) => len,
        Err(fault) => {
            assert(r2c_join_refused(
                *world,
                request,
                axis as int,
                routes,
                prepared,
                rooms.dimensions is Some,
                R2cError::Fft(fault),
            ));
            assert(r2c_routes_refused(
                *world,
                *planners,
                request,
                rooms,
                axis as int,
                routes,
                R2cError::Fft(fault),
            ));
            assert(r2c_axis_refused(
                *world,
                *planners,
                request,
                rooms,
                axis as int,
                R2cError::Fft(fault),
            ));
            return Err(R2cError::Fft(fault));
        },
    };
    let complex_len: usize = match prepared.locals[boundary] {
        LocalTransform::RealComplex(plan) => plan.complex_len,
        _ => 0,
    };
    let strided_line_len: usize = match memory_stride(
        &prepared.stages[boundary].input,
        prepared.stages[boundary].axis,
    ) {
        Ok(stride) => if stride > 1 {
            max_len(lines, complex_len)
        } else {
            lines
        },
        Err(fault) => {
            assert(unplaced_c2c(prepared.stages@, prepared.locals@, boundary as int));
            assert(r2c_join_refused(
                *world,
                request,
                axis as int,
                routes,
                prepared,
                rooms.dimensions is Some,
                R2cError::Fft(FftError::PreparationFailed),
            ));
            assert(r2c_routes_refused(
                *world,
                *planners,
                request,
                rooms,
                axis as int,
                routes,
                R2cError::Fft(FftError::PreparationFailed),
            ));
            assert(r2c_axis_refused(
                *world,
                *planners,
                request,
                rooms,
                axis as int,
                R2cError::Fft(FftError::PreparationFailed),
            ));
            return Err(R2cError::Fft(FftError::PreparationFailed));
        },
    };
    let fft_scratch: usize = prepared.fft_scratch_len;
    let ghost plan = exchanges;
    let core = TransformPlanCore {
        id: facts.id,
        stages: prepared.stages,
        locals: prepared.locals,
        extra_shape: request.extra_shape,
        selection: request.transform,
        layout: request.layout,
        boundary,
        descriptor,
        lens: CommonLens {
            fft_scratch,
            send: exchanges.send_len,
            receive: exchanges.receive_len,
        },
        real_lens: CommonLens {
            fft_scratch,
            send: exchanges.real_send_len,
            receive: exchanges.real_receive_len,
        },
        strided_line_len,
        raw_absolute_threshold,
        transitions: exchanges.transitions,
    };
    assert(r2c_routed(*world, request, N - 1 - core.boundary, routes));
    assert(transitions_given(
        world.transitions,
        core.stages@,
        joined_dimensions(
            routes.original_route.distributed@,
            routes.reduced_route.distributed@,
            core.boundary as int,
        ),
        request.extra_shape,
        request.layout.transpose_method,
        core.boundary,
        Ok(plan),
    ));
    assert(r2c_built_in(*world, *planners, *facts, request, rooms, core));
    Ok(core)
}

/// Builds a real-to-complex plan. Whether there is room for its lists rests on the machine;
/// [`construct_r2c_in`] says what follows for each answer.
pub fn construct_r2c<H: Fn([u64; 5]) -> bool, D: Fn(Option<Vec<u64>>, Option<usize>) -> Result<Vec<u64>, FftError>, A: Fn(bool) -> bool, P: Fn([usize; N]) -> Result<Pencil<N, M>, FftError>, Q: Fn(Pencil<N, M>, [usize; N], bool) -> Result<RouteCandidate<N, M>, FftError>, T: Fn(&Vec<Stage<N, M>>, &Vec<usize>, &ExtraShape, TransposeMethod, usize) -> Result<TransitionPlan, FftError>, X: Fn(usize) -> Result<LocalC2cPlan, LocalC2cError>, Y: Fn(usize) -> Result<LocalR2cPlan, LocalR2cError>, E: Fn(u64, &Vec<usize>) -> Result<u64, FftError>, const N: usize, const M: usize>(
    world: &World<H, D, A, P, Q, T>,
    planners: &R2cPlanners<X, Y, E>,
    facts: &R2cFacts<M>,
    request: PlanRequest<AxisSelection<N>, N, M>,
) -> (result: Result<TransformPlanCore<N, M>, R2cError>)
    requires
        1 <= N <= 0xffff_ffff,
        world_answers(*world),
        r2c_planners_answer(*planners),
        request.extra_shape.wf(),
    ensures
        match result {
            Ok(core) => {
                &&& core.wf()
                &&& core.id == facts.id
                &&& core.extra_shape == request.extra_shape
                &&& core.selection == request.transform
                &&& core.layout == request.layout
                &&& core.lens.fft_scratch == largest_of(
                    core.locals@.map_values(|local: LocalTransform| local.spec_scratch_len()),
                )
                &&& core.real_lens.fft_scratch == core.lens.fft_scratch
                &&& core.strided_line_len == longest_strided(core)
                &&& r2c_built(*world, *planners, *facts, request, core)
            },
            Err(error) => r2c_refused(*world, *planners, *facts, request, error),
        },
{
    let rooms: Rooms<N, M> = Rooms {
        words: descriptor_room(descriptor_len::<N, M>(&request.extra_shape)),
        stages: room_for(N),
        copies: None,
        dimensions: room_for(N - 1),
        real_pencils: None,
        complex_pencils: None,
    };
    construct_r2c_in(rooms, world, planners, facts, request)
}

} // verus!
