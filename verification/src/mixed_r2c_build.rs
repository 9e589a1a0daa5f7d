//! How a mixed real-to-complex plan is built.

use vstd::prelude::*;

use crate::boundary::mixed_endpoint_terms;
use crate::boundary::terms_of;
use crate::boundary::DepthTerm;
use crate::error::BackendInitError;
use crate::error::FftError;
use crate::error::LocalC2cError;
use crate::error::LocalR2cError;
use crate::error::LocalR2rError;
use crate::error::MixedError;
use crate::graph::r2c_graph;
use crate::graph::validate_r2c_directions;
use crate::graph::validate_r2c_graph;
use crate::layout::memory_stride;
use crate::layout::Pencil;
use crate::layout::TransposeMethod;
use crate::layout::ExtraShape;
use crate::local::local_line_len_complex;
use crate::local::local_line_len_real;
use crate::local::AxisR2rKind;
use crate::local::BackendChoice;
use crate::local::LocalC2cPlan;
use crate::local::LocalR2cPlan;
use crate::local::LocalR2rPlan;
use crate::local::MixedR2cStageLocal;
use crate::local::MixedRealLocal;
use crate::mixed_build::full_descriptor_len;
use crate::mixed_build::full_len;
use crate::mixed_build::list_refused;
use crate::mixed_build::localize;
use crate::mixed_build::localized;
use crate::mixed_build::peer_settle;
use crate::mixed_build::peer_settled;
use crate::mixed_build::plan_operation;
use crate::mixed_build::spec_plan_operation;
use crate::mixed_build::MixedAsk;
use crate::mixed_build::MixedFacts;
use crate::mixed_c2c_build::mixed_routed;
use crate::mixed_c2c_build::signs_given;
use crate::mixed_prepare::mixed_lens_of;
use crate::mixed_prepare::mixed_r2c_stage_at;
use crate::mixed_prepare::mixed_r2c_stages_before;
use crate::mixed_prepare::planners_answer;
use crate::mixed_prepare::preparation_failed;
use crate::mixed_prepare::prepare_mixed_r2c_stages_in;
use crate::mixed_prepare::r2c_planned;
use crate::mixed_prepare::strided_line;
use crate::mixed_prepare::MixedGraph;
use crate::mixed_prepare::MixedR2cStages;
use crate::mixed_prepare::Planners;
use crate::mixed_r2c::MixedR2cCore;
use crate::prepare::largest_of;
use crate::prepare::lemma_largest_push;
use crate::prepare::RouteCandidate;
use crate::prepare::RoutePair;
use crate::r2c_build::dimensions_fit;
use crate::r2c_build::join_dimensions_in;
use crate::r2c_build::joined_dimensions;
use crate::r2c_build::reduce_extents;
use crate::r2c_build::reduced_extents;
use crate::r2c_build::reduced_input_given;
use crate::r2c_build::reduced_routed;
use crate::r2r_build::transitions_given;
use crate::registry::distinct_layouts;
use crate::registry::inputs_of;
use crate::registry::is_empty_room;
use crate::registry::outputs_of;
use crate::registry::registered_real_stage_pencils_in;
use crate::registry::registered_stage_pencils_in;
use crate::registry::room_for;
use crate::registry::stages_wf;
use crate::registry::Stage;
use crate::request::PlanRequest;
use crate::rooms::Rooms;
use crate::sweep::larger;
use crate::sweep::max_len;
use crate::transition::TransitionPlan;
use crate::words::descriptor_room;
use crate::words::header_words;
use crate::words::lemma_empty_front;
use crate::words::mixed_descriptor_words;
use crate::words::mixed_header;
use crate::words::operation_word_of;
use crate::words::sign_words;
use crate::words::word_for;
use crate::words::write_backend_words;
use crate::words::write_mixed_descriptor;
use crate::words::MixedDescriptorFacts;
use crate::words::PlanFamily;
use crate::workspace::CommonLens;
use crate::world::agree_words;
use crate::world::find_input;
use crate::world::input_given;
use crate::world::lift;
use crate::world::lifted;
use crate::world::settle;
use crate::world::settled;
use crate::world::words_agreed;
use crate::world::world_answers;
use crate::world::World;

verus! {

/// The planners and the threshold can be asked for every plan, and a boundary has the length that
/// was asked for. The threshold is told what the stages behind the boundary add to the tolerance,
/// and gives a bit pattern.
pub open spec fn half_planners_answer<C: Fn(BackendChoice, usize, bool) -> Result<LocalC2cPlan, BackendInitError<LocalC2cError>>, K: Fn(BackendChoice, AxisR2rKind, usize) -> Result<LocalR2rPlan, BackendInitError<LocalR2rError>>, B: Fn(BackendChoice, usize) -> Result<LocalR2cPlan, BackendInitError<LocalR2cError>>, E: Fn(&Vec<DepthTerm>) -> Result<u64, FftError>>(
    planners: Planners<C, K, B>,
    threshold: E,
) -> bool {
    &&& planners_answer(planners)
    &&& forall|terms: &Vec<DepthTerm>| #[trigger] threshold.requires((terms,))
    &&& forall|backend: BackendChoice, n: usize, plan: LocalR2cPlan| #[trigger]
        planners.r2c.ensures((backend, n), Ok(plan)) ==> plan.wf() && plan.real_len == n
}

/// What a descriptor says of the boundary: its axis, its real extent and the extents behind it; of
/// transforms without a boundary, that there is none.
pub open spec fn described_as<const N: usize>(
    shape: Seq<usize>,
    graph: MixedGraph<N>,
    axis: usize,
    original_len: usize,
    output: Seq<usize>,
) -> bool {
    ||| {
        &&& r2c_graph(shape, graph.transforms@, axis as int)
        &&& original_len == shape[axis as int]
        &&& output == reduced_extents(shape, axis as int)
    }
    ||| {
        &&& forall|boundary: int| !r2c_graph(shape, graph.transforms@, boundary)
        &&& axis == usize::MAX
        &&& original_len == 0
        &&& output == shape
    }
}

/// The words of a plan are agreed on, or not: an own descriptor is what describes the plan, and there
/// is one where room for it was granted.
pub open spec fn mixed_r2c_words_given<H: Fn([u64; 5]) -> bool, D: Fn(Option<Vec<u64>>, Option<usize>) -> Result<Vec<u64>, FftError>, A: Fn(bool) -> bool, P: Fn([usize; N]) -> Result<Pencil<N, M>, FftError>, Q: Fn(Pencil<N, M>, [usize; N], bool) -> Result<RouteCandidate<N, M>, FftError>, T: Fn(&Vec<Stage<N, M>>, &Vec<usize>, &ExtraShape, TransposeMethod, usize) -> Result<TransitionPlan, FftError>, const N: usize, const M: usize>(
    world: World<H, D, A, P, Q, T>,
    facts: MixedFacts<M>,
    request: PlanRequest<MixedAsk<N>, N, M>,
    granted: bool,
    outcome: Result<Vec<u64>, FftError>,
) -> bool {
    exists|
        header: [u64; 5],
        own: Option<Vec<u64>>,
        len: Option<usize>,
        axis: usize,
        original_len: usize,
        output: Seq<usize>,
    |
        {
            &&& #[trigger] words_agreed(world.header, world.descriptor, header, own, len, outcome)
            &&& #[trigger] described_as(
                request.global_shape@,
                request.transform.graph,
                axis,
                original_len,
                output,
            )
            &&& len == full_len(
                N as int,
                M as int,
                request.extra_shape.dimensions@.len() as int,
            )
            &&& operation_word_of(
                spec_plan_operation(PlanFamily::MixedR2c, request.transform.graph.backend),
            ) matches Some(word) && header@ == header_words(word, N as int, M as int, len)
            &&& own is Some <==> granted
            &&& own is Some ==> own->0@ == mixed_descriptor_words(
                request.global_shape@,
                output,
                facts.process_grid@,
                request.extra_shape.dimensions@,
                (MixedDescriptorFacts {
                    family: 2,
                    scalar_bytes: facts.scalar_bytes,
                    reduction_axis: axis,
                    original_len,
                    layout: request.layout,
                }),
                request.transform.graph.transforms,
            ) + facts.backend_words@ + sign_words(request.transform.graph.directions)
        }
}

fn agree_mixed_r2c_words<H: Fn([u64; 5]) -> bool, D: Fn(Option<Vec<u64>>, Option<usize>) -> Result<Vec<u64>, FftError>, A: Fn(bool) -> bool, P: Fn([usize; N]) -> Result<Pencil<N, M>, FftError>, Q: Fn(Pencil<N, M>, [usize; N], bool) -> Result<RouteCandidate<N, M>, FftError>, T: Fn(&Vec<Stage<N, M>>, &Vec<usize>, &ExtraShape, TransposeMethod, usize) -> Result<TransitionPlan, FftError>, const N: usize, const M: usize>(
    room: Option<Vec<u64>>,
    world: &World<H, D, A, P, Q, T>,
    facts: &MixedFacts<M>,
    request: &PlanRequest<MixedAsk<N>, N, M>,
) -> (outcome: Result<Vec<u64>, FftError>)
    requires
        is_empty_room(room),
        world_answers(*world),
        facts.scalar_bytes == 4 || facts.scalar_bytes == 8,
    ensures
        mixed_r2c_words_given(*world, *facts, *request, room is Some, outcome),
{
    let len: Option<usize> = full_descriptor_len::<N, M>(&request.extra_shape);
    let checked = validate_r2c_graph(request.global_shape, request.transform.graph.transforms);
    let mut axis: usize = usize::MAX;
    let mut original_len: usize = 0;
    let mut output: [usize; N] = request.global_shape;
    match checked {
        Ok(boundary) => {
            axis = boundary;
            original_len = request.global_shape[boundary];
            output = reduce_extents(&request.global_shape, boundary);
        },
        Err(_) => {},
    }
    assert(described_as(
        request.global_shape@,
        request.transform.graph,
        axis,
        original_len,
        output@,
    ));
    let described: Option<Vec<u64>> = write_mixed_descriptor(
        room,
        &facts.process_grid,
        &request.global_shape,
        &output,
        &request.extra_shape,
        &request.transform.graph.transforms,
        &MixedDescriptorFacts {
            family: 2,
            scalar_bytes: facts.scalar_bytes,
            reduction_axis: axis,
            original_len,
            layout: request.layout,
        },
    );
    proof {
        if room is Some {
            lemma_empty_front(
                room->0@,
                mixed_descriptor_words(
                    request.global_shape@,
                    output@,
                    facts.process_grid@,
                    request.extra_shape.dimensions@,
                    (MixedDescriptorFacts {
                        family: 2,
                        scalar_bytes: facts.scalar_bytes,
                        reduction_axis: axis,
                        original_len,
                        layout: request.layout,
                    }),
                    request.transform.graph.transforms,
                ),
            );
        }
    }
    let own: Option<Vec<u64>> = write_backend_words(
        described,
        &facts.backend_words,
        &request.transform.graph.directions,
    );
    let operation = plan_operation(PlanFamily::MixedR2c, request.transform.graph.backend);
    let header: [u64; 5] = mixed_header::<N, M>(word_for(operation), len);
    agree_words(&world.header, &world.descriptor, header, own, len)
}

/// What the search for the boundary comes to.
pub open spec fn boundary_given<const N: usize>(
    shape: Seq<usize>,
    graph: MixedGraph<N>,
    outcome: Result<usize, MixedError>,
) -> bool {
    match outcome {
        Ok(axis) => r2c_graph(shape, graph.transforms@, axis as int),
        Err(error) => error == MixedError::InvalidGraph && forall|axis: int|
            !r2c_graph(shape, graph.transforms@, axis),
    }
}

/// The two routes of a plan whose boundary lies on `axis`.
pub open spec fn mixed_pair_routed<H: Fn([u64; 5]) -> bool, D: Fn(Option<Vec<u64>>, Option<usize>) -> Result<Vec<u64>, FftError>, A: Fn(bool) -> bool, P: Fn([usize; N]) -> Result<Pencil<N, M>, FftError>, Q: Fn(Pencil<N, M>, [usize; N], bool) -> Result<RouteCandidate<N, M>, FftError>, T: Fn(&Vec<Stage<N, M>>, &Vec<usize>, &ExtraShape, TransposeMethod, usize) -> Result<TransitionPlan, FftError>, const N: usize, const M: usize>(
    world: World<H, D, A, P, Q, T>,
    request: PlanRequest<MixedAsk<N>, N, M>,
    axis: int,
    routes: RoutePair<N, M>,
) -> bool {
    &&& mixed_routed(world, request, Ok(routes.original_route))
    &&& reduced_routed(
        world,
        request.global_shape@,
        request.layout.permute_dims,
        axis,
        Ok(routes.reduced_route),
    )
    &&& routes.original_shape == request.global_shape
    &&& routes.reduced_shape@ == reduced_extents(request.global_shape@, axis)
}

/// The stages along two routes, with the kernels that the planners gave.
pub open spec fn mixed_r2c_stages_hold<C: Fn(BackendChoice, usize, bool) -> Result<LocalC2cPlan, BackendInitError<LocalC2cError>>, K: Fn(BackendChoice, AxisR2rKind, usize) -> Result<LocalR2rPlan, BackendInitError<LocalR2rError>>, B: Fn(BackendChoice, usize) -> Result<LocalR2cPlan, BackendInitError<LocalR2cError>>, const N: usize, const M: usize>(
    planners: Planners<C, K, B>,
    routes: RoutePair<N, M>,
    graph: MixedGraph<N>,
    boundary: int,
    stages: Seq<Stage<N, M>>,
    locals: Seq<MixedR2cStageLocal>,
) -> bool {
    &&& stages.len() == N
    &&& locals.len() == N
    &&& forall|i: int| 0 <= i < N ==> #[trigger] stages[i] == routes.stage_at(boundary, i)
    &&& forall|i: int|
        0 <= i < N ==> mixed_r2c_stage_at(
            planners,
            routes,
            graph,
            boundary,
            i,
            Ok(#[trigger] locals[i]),
        )
}

/// The outcome of preparing stages along two routes, where room for them was granted or not.
pub open spec fn mixed_r2c_stages_given<C: Fn(BackendChoice, usize, bool) -> Result<LocalC2cPlan, BackendInitError<LocalC2cError>>, K: Fn(BackendChoice, AxisR2rKind, usize) -> Result<LocalR2rPlan, BackendInitError<LocalR2rError>>, B: Fn(BackendChoice, usize) -> Result<LocalR2cPlan, BackendInitError<LocalR2cError>>, const N: usize, const M: usize>(
    planners: Planners<C, K, B>,
    routes: RoutePair<N, M>,
    graph: MixedGraph<N>,
    boundary: int,
    granted: bool,
    outcome: Result<MixedR2cStages<N, M>, BackendInitError<MixedError>>,
) -> bool {
    if !routes.complete() {
        outcome == Err::<MixedR2cStages<N, M>, BackendInitError<MixedError>>(preparation_failed())
    } else if !granted {
        outcome == Err::<MixedR2cStages<N, M>, BackendInitError<MixedError>>(
            BackendInitError::Local(MixedError::Fft(FftError::AllocationFailed { required: N })),
        )
    } else {
        match outcome {
            Ok(prepared) => {
                &&& mixed_r2c_stages_hold(
                    planners,
                    routes,
                    graph,
                    boundary,
                    prepared.stages@,
                    prepared.locals@,
                )
                &&& prepared.lens == mixed_lens_of(prepared.locals@)
            },
            Err(error) => exists|i: int|
                0 <= i < N && #[trigger] mixed_r2c_stage_at(
                    planners,
                    routes,
                    graph,
                    boundary,
                    i,
                    Err(error),
                ) && mixed_r2c_stages_before(planners, routes, graph, boundary, i),
        }
    }
}

/// The real lines of the stages that do not lie in one piece.
pub open spec fn strided_real_lines<const N: usize, const M: usize>(
    stages: Seq<Stage<N, M>>,
    locals: Seq<MixedR2cStageLocal>,
) -> Seq<usize> {
    Seq::new(
        stages.len(),
        |i: int|
            strided_line(
                stages[i].input,
                stages[i].axis as int,
                locals[i].spec_real_line_len(),
            ),
    )
}

/// The complex lines of the stages that do not lie in one piece.
pub open spec fn strided_half_lines<const N: usize, const M: usize>(
    stages: Seq<Stage<N, M>>,
    locals: Seq<MixedR2cStageLocal>,
) -> Seq<usize> {
    Seq::new(
        stages.len(),
        |i: int|
            strided_line(
                stages[i].input,
                stages[i].axis as int,
                locals[i].spec_complex_line_len(),
            ),
    )
}

/// A stage whose lines cannot be placed.
pub open spec fn unplaced<const N: usize, const M: usize>(stages: Seq<Stage<N, M>>, i: int) -> bool {
    stages[i].input.stride_along(stages[i].axis as int) is None
}

/// The longest real line that does not lie in one piece, and the longest such complex line, the
/// boundary's included.
pub open spec fn line_needs<const N: usize, const M: usize>(
    stages: Seq<Stage<N, M>>,
    locals: Seq<MixedR2cStageLocal>,
    boundary: int,
    complex_len: usize,
) -> (usize, usize) {
    (
        largest_of(strided_real_lines(stages, locals)),
        larger(
            largest_of(strided_half_lines(stages, locals)),
            strided_line(stages[boundary].input, stages[boundary].axis as int, complex_len),
        ),
    )
}

/// Returns the longest real line that does not lie in one piece, and the longest such complex
/// line.
pub fn strided_line_needs<const N: usize, const M: usize>(
    stages: &Vec<Stage<N, M>>,
    locals: &Vec<MixedR2cStageLocal>,
    boundary: usize,
    complex_len: usize,
) -> (result: Result<(usize, usize), FftError>)
    requires
        stages_wf(stages@),
        locals@.len() == stages@.len(),
        boundary < stages@.len(),
    ensures
        match result {
            Ok(needs) => needs == line_needs(stages@, locals@, boundary as int, complex_len),
            Err(error) => error == FftError::PreparationFailed && exists|i: int|
                0 <= i < stages@.len() && #[trigger] unplaced(stages@, i),
        },
{
    let mut real_line: usize = 0;
    let mut complex_line: usize = 0;
    let mut index: usize = 0;
    let ghost reals = strided_real_lines(stages@, locals@);
    let ghost halves = strided_half_lines(stages@, locals@);
    assert(reals.take(0) =~= Seq::<usize>::empty());
    assert(halves.take(0) =~= Seq::<usize>::empty());
    while index < stages.len()
        invariant
            index <= stages@.len(),
            stages_wf(stages@),
            locals@.len() == stages@.len(),
            reals == strided_real_lines(stages@, locals@),
            halves == strided_half_lines(stages@, locals@),
            real_line == largest_of(reals.take(index as int)),
            complex_line == largest_of(halves.take(index as int)),
        decreases stages@.len() - index,
    {
        proof {
            assert(reals.take(index + 1) =~= reals.take(index as int).push(reals[index as int]));
            assert(halves.take(index + 1) =~= halves.take(index as int).push(
                halves[index as int],
            ));
            lemma_largest_push(reals.take(index as int), reals[index as int]);
            lemma_largest_push(halves.take(index as int), halves[index as int]);
            assert(stages@[index as int].wf());
        }
        let stride: usize = match memory_stride(&stages[index].input, stages[index].axis) {
            Ok(stride) => stride,
            Err(_) => {
                assert(unplaced(stages@, index as int));
                return Err(FftError::PreparationFailed);
            },
        };
        if stride > 1 {
            match &locals[index] {
                MixedR2cStageLocal::Real(local) => {
                    real_line = max_len(real_line, local_line_len_real(local));
                },
                MixedR2cStageLocal::Complex(local) => {
                    complex_line = max_len(complex_line, local_line_len_complex(local));
                },
            }
        }
        index += 1;
    }
    assert(reals.take(index as int) =~= reals);
    assert(halves.take(index as int) =~= halves);
    proof {
        assert(stages@[boundary as int].wf());
    }
    match memory_stride(&stages[boundary].input, stages[boundary].axis) {
        Ok(stride) => if stride > 1 {
            Ok((real_line, max_len(complex_line, complex_len)))
        } else {
            Ok((real_line, complex_line))
        },
        Err(_) => {
            assert(unplaced(stages@, boundary as int));
            Err(FftError::PreparationFailed)
        },
    }
}

/// What the threshold of a plan comes to.
pub open spec fn mixed_threshold_given<E: Fn(&Vec<DepthTerm>) -> Result<u64, FftError>>(
    threshold: E,
    locals: Seq<MixedR2cStageLocal>,
    boundary: int,
    outcome: Result<u64, FftError>,
) -> bool {
    exists|terms: &Vec<DepthTerm>|
        {
            &&& #[trigger] threshold.ensures((terms,), outcome)
            &&& terms@ == terms_of(locals.skip(boundary + 1))
        }
}

/// The plan holds the answers to the questions behind the choice of its boundary.
pub open spec fn mixed_r2c_joined<H: Fn([u64; 5]) -> bool, D: Fn(Option<Vec<u64>>, Option<usize>) -> Result<Vec<u64>, FftError>, A: Fn(bool) -> bool, P: Fn([usize; N]) -> Result<Pencil<N, M>, FftError>, Q: Fn(Pencil<N, M>, [usize; N], bool) -> Result<RouteCandidate<N, M>, FftError>, T: Fn(&Vec<Stage<N, M>>, &Vec<usize>, &ExtraShape, TransposeMethod, usize) -> Result<TransitionPlan, FftError>, C: Fn(BackendChoice, usize, bool) -> Result<LocalC2cPlan, BackendInitError<LocalC2cError>>, K: Fn(BackendChoice, AxisR2rKind, usize) -> Result<LocalR2rPlan, BackendInitError<LocalR2rError>>, B: Fn(BackendChoice, usize) -> Result<LocalR2cPlan, BackendInitError<LocalR2cError>>, E: Fn(&Vec<DepthTerm>) -> Result<u64, FftError>, const N: usize, const M: usize>(
    world: World<H, D, A, P, Q, T>,
    planners: Planners<C, K, B>,
    threshold: E,
    request: PlanRequest<MixedAsk<N>, N, M>,
    rooms: Rooms<N, M>,
    core: MixedR2cCore<N, M>,
) -> bool {
    exists|routes: RoutePair<N, M>, exchanges: TransitionPlan|
        {
            &&& #[trigger] mixed_pair_routed(world, request, N - 1 - core.boundary, routes)
            &&& rooms.stages is Some
            &&& rooms.copies is Some
            &&& rooms.dimensions is Some
            &&& rooms.real_pencils is Some
            &&& rooms.complex_pencils is Some
            &&& routes.complete()
            &&& dimensions_fit(routes)
            &&& mixed_r2c_stages_hold(
                planners,
                routes,
                request.transform.graph,
                core.boundary as int,
                core.stages@,
                core.locals@,
            )
            &&& mixed_threshold_given(
                threshold,
                core.locals@,
                core.boundary as int,
                Ok(core.raw_absolute_threshold),
            )
            &&& #[trigger] transitions_given(
                world.transitions,
                core.stages@,
                joined_dimensions(
                    routes.original_route.distributed@,
                    routes.reduced_route.distributed@,
                    core.boundary as int,
                ),
                request.extra_shape,
                request.layout.transpose_method,
                core.boundary,
                Ok(exchanges),
            )
            &&& core.transitions == exchanges.transitions
            &&& core.lens.send == exchanges.send_len
            &&& core.lens.receive == exchanges.receive_len
            &&& core.real_lens.send == exchanges.real_send_len
            &&& core.real_lens.receive == exchanges.real_receive_len
        }
}

/// A plan that was built in `rooms`: all questions were answered, and the plan holds the answers.
pub open spec fn mixed_r2c_built_in<H: Fn([u64; 5]) -> bool, D: Fn(Option<Vec<u64>>, Option<usize>) -> Result<Vec<u64>, FftError>, A: Fn(bool) -> bool, P: Fn([usize; N]) -> Result<Pencil<N, M>, FftError>, Q: Fn(Pencil<N, M>, [usize; N], bool) -> Result<RouteCandidate<N, M>, FftError>, T: Fn(&Vec<Stage<N, M>>, &Vec<usize>, &ExtraShape, TransposeMethod, usize) -> Result<TransitionPlan, FftError>, C: Fn(BackendChoice, usize, bool) -> Result<LocalC2cPlan, BackendInitError<LocalC2cError>>, K: Fn(BackendChoice, AxisR2rKind, usize) -> Result<LocalR2rPlan, BackendInitError<LocalR2rError>>, B: Fn(BackendChoice, usize) -> Result<LocalR2cPlan, BackendInitError<LocalR2cError>>, E: Fn(&Vec<DepthTerm>) -> Result<u64, FftError>, const N: usize, const M: usize>(
    world: World<H, D, A, P, Q, T>,
    planners: Planners<C, K, B>,
    threshold: E,
    facts: MixedFacts<M>,
    request: PlanRequest<MixedAsk<N>, N, M>,
    rooms: Rooms<N, M>,
    core: MixedR2cCore<N, M>,
) -> bool {
    let graph = request.transform.graph;
    &&& mixed_r2c_words_given(world, facts, request, rooms.words is Some, Ok(core.descriptor))
    &&& signs_given(graph, Ok(()))
    &&& r2c_graph(request.global_shape@, graph.transforms@, N - 1 - core.boundary)
    &&& mixed_r2c_joined(world, planners, threshold, request, rooms, core)
}

/// The buffers are as long as the longest need.
pub open spec fn mixed_r2c_lens_hold<const N: usize, const M: usize>(core: MixedR2cCore<N, M>) -> bool {
    let lens = mixed_lens_of(core.locals@);
    let lines = line_needs(
        core.stages@,
        core.locals@,
        core.boundary as int,
        core.plan().complex_len,
    );
    &&& core.embedding_len == lens.embedding_len
    &&& core.lens.fft_scratch == lens.fft_scratch_len
    &&& core.real_line_len == larger(lens.real_line_len, lines.0)
    &&& core.complex_line_len == larger(lens.complex_line_len, lines.1)
}

/// Why a plan with prepared stages was not built in `rooms`: the first question that failed, or that
/// another process could not answer.
pub open spec fn mixed_stages_refused<H: Fn([u64; 5]) -> bool, D: Fn(Option<Vec<u64>>, Option<usize>) -> Result<Vec<u64>, FftError>, A: Fn(bool) -> bool, P: Fn([usize; N]) -> Result<Pencil<N, M>, FftError>, Q: Fn(Pencil<N, M>, [usize; N], bool) -> Result<RouteCandidate<N, M>, FftError>, T: Fn(&Vec<Stage<N, M>>, &Vec<usize>, &ExtraShape, TransposeMethod, usize) -> Result<TransitionPlan, FftError>, E: Fn(&Vec<DepthTerm>) -> Result<u64, FftError>, const N: usize, const M: usize>(
    world: World<H, D, A, P, Q, T>,
    threshold: E,
    request: PlanRequest<MixedAsk<N>, N, M>,
    boundary: int,
    routes: RoutePair<N, M>,
    prepared: MixedR2cStages<N, M>,
    rooms: Rooms<N, M>,
    error: BackendInitError<MixedError>,
) -> bool {
    ||| exists|local: Result<u64, FftError>| #[trigger]
        mixed_threshold_given(threshold, prepared.locals@, boundary, local) && settled::<
            u64,
            BackendInitError<MixedError>,
            A,
        >(world.agree, lifted(local), Err(error))
    ||| exists|value: u64|
        {
            &&& #[trigger] mixed_threshold_given(threshold, prepared.locals@, boundary, Ok(value))
            &&& mixed_lists_refused(world, request, boundary, routes, prepared, rooms, error)
        }
}

/// Why a plan with a threshold was not built in `rooms`: the first list or question that failed, or
/// that another process could not answer.
pub open spec fn mixed_lists_refused<H: Fn([u64; 5]) -> bool, D: Fn(Option<Vec<u64>>, Option<usize>) -> Result<Vec<u64>, FftError>, A: Fn(bool) -> bool, P: Fn([usize; N]) -> Result<Pencil<N, M>, FftError>, Q: Fn(Pencil<N, M>, [usize; N], bool) -> Result<RouteCandidate<N, M>, FftError>, T: Fn(&Vec<Stage<N, M>>, &Vec<usize>, &ExtraShape, TransposeMethod, usize) -> Result<TransitionPlan, FftError>, const N: usize, const M: usize>(
    world: World<H, D, A, P, Q, T>,
    request: PlanRequest<MixedAsk<N>, N, M>,
    boundary: int,
    routes: RoutePair<N, M>,
    prepared: MixedR2cStages<N, M>,
    rooms: Rooms<N, M>,
    error: BackendInitError<MixedError>,
) -> bool {
    ||| list_refused::<Vec<Stage<N, M>>, A>(world.agree, N as int, rooms.copies is Some, error)
    ||| rooms.copies is Some && !dimensions_fit(routes) && error == preparation_failed()
    ||| rooms.copies is Some && dimensions_fit(routes) && {
        ||| list_refused::<Vec<usize>, A>(world.agree, N - 1, rooms.dimensions is Some, error)
        ||| rooms.dimensions is Some && exists|local: Result<TransitionPlan, FftError>| #[trigger]
            transitions_given(
                world.transitions,
                prepared.stages@,
                joined_dimensions(
                    routes.original_route.distributed@,
                    routes.reduced_route.distributed@,
                    boundary,
                ),
                request.extra_shape,
                request.layout.transpose_method,
                boundary as usize,
                local,
            ) && settled::<TransitionPlan, BackendInitError<MixedError>, A>(
                world.agree,
                lifted(local),
                Err(error),
            )
        ||| rooms.dimensions is Some && exists|exchanges: TransitionPlan| #[trigger]
            transitions_given(
                world.transitions,
                prepared.stages@,
                joined_dimensions(
                    routes.original_route.distributed@,
                    routes.reduced_route.distributed@,
                    boundary,
                ),
                request.extra_shape,
                request.layout.transpose_method,
                boundary as usize,
                Ok(exchanges),
            ) && mixed_layouts_refused(world.agree, boundary, prepared, rooms, error)
    }
}

/// Why a plan with exchanges was not built in `rooms`.
pub open spec fn mixed_layouts_refused<A: Fn(bool) -> bool, const N: usize, const M: usize>(
    agree: A,
    boundary: int,
    prepared: MixedR2cStages<N, M>,
    rooms: Rooms<N, M>,
    error: BackendInitError<MixedError>,
) -> bool {
    ||| list_refused::<Vec<Pencil<N, M>>, A>(
        agree,
        boundary + 1,
        rooms.real_pencils is Some,
        error,
    )
    ||| rooms.real_pencils is Some && list_refused::<Vec<Pencil<N, M>>, A>(
        agree,
        N - boundary,
        rooms.complex_pencils is Some,
        error,
    )
    ||| rooms.real_pencils is Some && rooms.complex_pencils is Some && exists|
        local: Result<(usize, usize), FftError>,
    |
        {
            &&& #[trigger] settled::<(usize, usize), BackendInitError<MixedError>, A>(
                agree,
                lifted(local),
                Err(error),
            )
            &&& local is Err ==> local->Err_0 == FftError::PreparationFailed && exists|i: int|
                0 <= i < N && #[trigger] unplaced(prepared.stages@, i)
        }
}

/// Why a plan with routes was not built in `rooms`.
pub open spec fn mixed_routes_refused<H: Fn([u64; 5]) -> bool, D: Fn(Option<Vec<u64>>, Option<usize>) -> Result<Vec<u64>, FftError>, A: Fn(bool) -> bool, P: Fn([usize; N]) -> Result<Pencil<N, M>, FftError>, Q: Fn(Pencil<N, M>, [usize; N], bool) -> Result<RouteCandidate<N, M>, FftError>, T: Fn(&Vec<Stage<N, M>>, &Vec<usize>, &ExtraShape, TransposeMethod, usize) -> Result<TransitionPlan, FftError>, C: Fn(BackendChoice, usize, bool) -> Result<LocalC2cPlan, BackendInitError<LocalC2cError>>, K: Fn(BackendChoice, AxisR2rKind, usize) -> Result<LocalR2rPlan, BackendInitError<LocalR2rError>>, B: Fn(BackendChoice, usize) -> Result<LocalR2cPlan, BackendInitError<LocalR2cError>>, E: Fn(&Vec<DepthTerm>) -> Result<u64, FftError>, const N: usize, const M: usize>(
    world: World<H, D, A, P, Q, T>,
    planners: Planners<C, K, B>,
    threshold: E,
    request: PlanRequest<MixedAsk<N>, N, M>,
    boundary: int,
    routes: RoutePair<N, M>,
    rooms: Rooms<N, M>,
    error: BackendInitError<MixedError>,
) -> bool {
    let graph = request.transform.graph;
    ||| exists|local: Result<MixedR2cStages<N, M>, BackendInitError<MixedError>>| #[trigger]
        mixed_r2c_stages_given(planners, routes, graph, boundary, rooms.stages is Some, local) && peer_settled(
            world.agree,
            local,
            Err(error),
        )
    ||| exists|prepared: MixedR2cStages<N, M>|
        {
            &&& mixed_r2c_stages_given(
                planners,
                routes,
                graph,
                boundary,
                rooms.stages is Some,
                Ok(prepared),
            )
            &&& #[trigger] mixed_stages_refused(
                world,
                threshold,
                request,
                boundary,
                routes,
                prepared,
                rooms,
                error,
            )
        }
}

/// Why a plan whose boundary lies on `axis` was not routed.
pub open spec fn mixed_pair_refused<H: Fn([u64; 5]) -> bool, D: Fn(Option<Vec<u64>>, Option<usize>) -> Result<Vec<u64>, FftError>, A: Fn(bool) -> bool, P: Fn([usize; N]) -> Result<Pencil<N, M>, FftError>, Q: Fn(Pencil<N, M>, [usize; N], bool) -> Result<RouteCandidate<N, M>, FftError>, T: Fn(&Vec<Stage<N, M>>, &Vec<usize>, &ExtraShape, TransposeMethod, usize) -> Result<TransitionPlan, FftError>, const N: usize, const M: usize>(
    world: World<H, D, A, P, Q, T>,
    request: PlanRequest<MixedAsk<N>, N, M>,
    axis: int,
    error: BackendInitError<MixedError>,
) -> bool {
    let shape = request.global_shape@;
    ||| exists|local: Result<Pencil<N, M>, FftError>| #[trigger]
        input_given(world.pencil, request, local) && settled::<Pencil<N, M>, BackendInitError<MixedError>, A>(world.agree, lifted(local), Err(error))
    ||| exists|local: Result<RouteCandidate<N, M>, FftError>| #[trigger]
        mixed_routed(world, request, local) && settled::<RouteCandidate<N, M>, BackendInitError<MixedError>, A>(world.agree, lifted(local), Err(error))
    ||| exists|original: RouteCandidate<N, M>, local: Result<Pencil<N, M>, FftError>|
        {
            &&& #[trigger] mixed_routed(world, request, Ok(original))
            &&& #[trigger] reduced_input_given(world, shape, axis, local)
            &&& settled::<Pencil<N, M>, BackendInitError<MixedError>, A>(world.agree, lifted(local), Err(error))
        }
    ||| exists|original: RouteCandidate<N, M>, local: Result<RouteCandidate<N, M>, FftError>|
        {
            &&& #[trigger] mixed_routed(world, request, Ok(original))
            &&& #[trigger] reduced_routed(
                world,
                shape,
                request.layout.permute_dims,
                axis,
                local,
            )
            &&& settled::<RouteCandidate<N, M>, BackendInitError<MixedError>, A>(world.agree, lifted(local), Err(error))
        }
}

/// Why a plan whose boundary lies on `axis` was not built in `rooms`.
pub open spec fn mixed_axis_refused<H: Fn([u64; 5]) -> bool, D: Fn(Option<Vec<u64>>, Option<usize>) -> Result<Vec<u64>, FftError>, A: Fn(bool) -> bool, P: Fn([usize; N]) -> Result<Pencil<N, M>, FftError>, Q: Fn(Pencil<N, M>, [usize; N], bool) -> Result<RouteCandidate<N, M>, FftError>, T: Fn(&Vec<Stage<N, M>>, &Vec<usize>, &ExtraShape, TransposeMethod, usize) -> Result<TransitionPlan, FftError>, C: Fn(BackendChoice, usize, bool) -> Result<LocalC2cPlan, BackendInitError<LocalC2cError>>, K: Fn(BackendChoice, AxisR2rKind, usize) -> Result<LocalR2rPlan, BackendInitError<LocalR2rError>>, B: Fn(BackendChoice, usize) -> Result<LocalR2cPlan, BackendInitError<LocalR2cError>>, E: Fn(&Vec<DepthTerm>) -> Result<u64, FftError>, const N: usize, const M: usize>(
    world: World<H, D, A, P, Q, T>,
    planners: Planners<C, K, B>,
    threshold: E,
    request: PlanRequest<MixedAsk<N>, N, M>,
    axis: int,
    rooms: Rooms<N, M>,
    error: BackendInitError<MixedError>,
) -> bool {
    ||| mixed_pair_refused(world, request, axis, error)
    ||| exists|routes: RoutePair<N, M>|
        {
            &&& #[trigger] mixed_pair_routed(world, request, axis, routes)
            &&& mixed_routes_refused(
                world,
                planners,
                threshold,
                request,
                N - 1 - axis,
                routes,
                rooms,
                error,
            )
        }
}

/// Why a plan whose words are agreed on was not built in `rooms`: the first question that failed, or
/// that another process could not answer.
pub open spec fn mixed_r2c_unbuilt<H: Fn([u64; 5]) -> bool, D: Fn(Option<Vec<u64>>, Option<usize>) -> Result<Vec<u64>, FftError>, A: Fn(bool) -> bool, P: Fn([usize; N]) -> Result<Pencil<N, M>, FftError>, Q: Fn(Pencil<N, M>, [usize; N], bool) -> Result<RouteCandidate<N, M>, FftError>, T: Fn(&Vec<Stage<N, M>>, &Vec<usize>, &ExtraShape, TransposeMethod, usize) -> Result<TransitionPlan, FftError>, C: Fn(BackendChoice, usize, bool) -> Result<LocalC2cPlan, BackendInitError<LocalC2cError>>, K: Fn(BackendChoice, AxisR2rKind, usize) -> Result<LocalR2rPlan, BackendInitError<LocalR2rError>>, B: Fn(BackendChoice, usize) -> Result<LocalR2cPlan, BackendInitError<LocalR2cError>>, E: Fn(&Vec<DepthTerm>) -> Result<u64, FftError>, const N: usize, const M: usize>(
    world: World<H, D, A, P, Q, T>,
    planners: Planners<C, K, B>,
    threshold: E,
    request: PlanRequest<MixedAsk<N>, N, M>,
    rooms: Rooms<N, M>,
    error: BackendInitError<MixedError>,
) -> bool {
    let graph = request.transform.graph;
    ||| exists|local: Result<(), MixedError>| #[trigger]
        signs_given(graph, local) && settled::<(), BackendInitError<MixedError>, A>(
            world.agree,
            localized(local),
            Err(error),
        )
    ||| exists|local: Result<usize, MixedError>|
        {
            &&& signs_given(graph, Ok(()))
            &&& #[trigger] boundary_given(request.global_shape@, graph, local)
            &&& settled::<usize, BackendInitError<MixedError>, A>(
                world.agree,
                localized(local),
                Err(error),
            )
        }
    ||| exists|axis: int|
        {
            &&& signs_given(graph, Ok(()))
            &&& r2c_graph(request.global_shape@, graph.transforms@, axis)
            &&& #[trigger] mixed_axis_refused(
                world,
                planners,
                threshold,
                request,
                axis,
                rooms,
                error,
            )
        }
}

/// Why a plan was not built in `rooms`.
pub open spec fn mixed_r2c_refused_in<H: Fn([u64; 5]) -> bool, D: Fn(Option<Vec<u64>>, Option<usize>) -> Result<Vec<u64>, FftError>, A: Fn(bool) -> bool, P: Fn([usize; N]) -> Result<Pencil<N, M>, FftError>, Q: Fn(Pencil<N, M>, [usize; N], bool) -> Result<RouteCandidate<N, M>, FftError>, T: Fn(&Vec<Stage<N, M>>, &Vec<usize>, &ExtraShape, TransposeMethod, usize) -> Result<TransitionPlan, FftError>, C: Fn(BackendChoice, usize, bool) -> Result<LocalC2cPlan, BackendInitError<LocalC2cError>>, K: Fn(BackendChoice, AxisR2rKind, usize) -> Result<LocalR2rPlan, BackendInitError<LocalR2rError>>, B: Fn(BackendChoice, usize) -> Result<LocalR2cPlan, BackendInitError<LocalR2cError>>, E: Fn(&Vec<DepthTerm>) -> Result<u64, FftError>, const N: usize, const M: usize>(
    world: World<H, D, A, P, Q, T>,
    planners: Planners<C, K, B>,
    threshold: E,
    facts: MixedFacts<M>,
    request: PlanRequest<MixedAsk<N>, N, M>,
    rooms: Rooms<N, M>,
    error: BackendInitError<MixedError>,
) -> bool {
    ||| exists|fault: FftError| #[trigger]
        mixed_r2c_words_given(world, facts, request, rooms.words is Some, Err(fault)) && error
            == BackendInitError::Local(MixedError::Fft(fault))
    ||| exists|words: Vec<u64>| #[trigger]
        mixed_r2c_words_given(world, facts, request, rooms.words is Some, Ok(words))
            && mixed_r2c_unbuilt(world, planners, threshold, request, rooms, error)
}

/// A plan that was built in whatever rooms there were.
pub open spec fn mixed_r2c_built<H: Fn([u64; 5]) -> bool, D: Fn(Option<Vec<u64>>, Option<usize>) -> Result<Vec<u64>, FftError>, A: Fn(bool) -> bool, P: Fn([usize; N]) -> Result<Pencil<N, M>, FftError>, Q: Fn(Pencil<N, M>, [usize; N], bool) -> Result<RouteCandidate<N, M>, FftError>, T: Fn(&Vec<Stage<N, M>>, &Vec<usize>, &ExtraShape, TransposeMethod, usize) -> Result<TransitionPlan, FftError>, C: Fn(BackendChoice, usize, bool) -> Result<LocalC2cPlan, BackendInitError<LocalC2cError>>, K: Fn(BackendChoice, AxisR2rKind, usize) -> Result<LocalR2rPlan, BackendInitError<LocalR2rError>>, B: Fn(BackendChoice, usize) -> Result<LocalR2cPlan, BackendInitError<LocalR2cError>>, E: Fn(&Vec<DepthTerm>) -> Result<u64, FftError>, const N: usize, const M: usize>(
    world: World<H, D, A, P, Q, T>,
    planners: Planners<C, K, B>,
    threshold: E,
    facts: MixedFacts<M>,
    request: PlanRequest<MixedAsk<N>, N, M>,
    core: MixedR2cCore<N, M>,
) -> bool {
    exists|rooms: Rooms<N, M>| #[trigger]
        mixed_r2c_built_in(world, planners, threshold, facts, request, rooms, core)
}

/// Why a plan was not built in whatever rooms there were.
pub open spec fn mixed_r2c_refused<H: Fn([u64; 5]) -> bool, D: Fn(Option<Vec<u64>>, Option<usize>) -> Result<Vec<u64>, FftError>, A: Fn(bool) -> bool, P: Fn([usize; N]) -> Result<Pencil<N, M>, FftError>, Q: Fn(Pencil<N, M>, [usize; N], bool) -> Result<RouteCandidate<N, M>, FftError>, T: Fn(&Vec<Stage<N, M>>, &Vec<usize>, &ExtraShape, TransposeMethod, usize) -> Result<TransitionPlan, FftError>, C: Fn(BackendChoice, usize, bool) -> Result<LocalC2cPlan, BackendInitError<LocalC2cError>>, K: Fn(BackendChoice, AxisR2rKind, usize) -> Result<LocalR2rPlan, BackendInitError<LocalR2rError>>, B: Fn(BackendChoice, usize) -> Result<LocalR2cPlan, BackendInitError<LocalR2cError>>, E: Fn(&Vec<DepthTerm>) -> Result<u64, FftError>, const N: usize, const M: usize>(
    world: World<H, D, A, P, Q, T>,
    planners: Planners<C, K, B>,
    threshold: E,
    facts: MixedFacts<M>,
    request: PlanRequest<MixedAsk<N>, N, M>,
    error: BackendInitError<MixedError>,
) -> bool {
    exists|rooms: Rooms<N, M>| #[trigger]
        mixed_r2c_refused_in(world, planners, threshold, facts, request, rooms, error)
}

/// Copies where the stages work to `room`.
pub fn copy_stages_in<const N: usize, const M: usize>(
    room: Option<Vec<Stage<N, M>>>,
    stages: &Vec<Stage<N, M>>,
) -> (result: Result<Vec<Stage<N, M>>, FftError>)
    requires
        is_empty_room(room),
    ensures
        match room {
            Some(_) => result matches Ok(copy) && copy@ == stages@,
            None => result == Err::<Vec<Stage<N, M>>, FftError>(
                FftError::AllocationFailed { required: stages@.len() as usize },
            ),
        },
{
    let count: usize = stages.len();
    let mut copy: Vec<Stage<N, M>> = match room {
        Some(copy) => copy,
        None => {
            return Err(FftError::AllocationFailed { required: count });
        },
    };
    let mut index: usize = 0;
    while index < count
        invariant
            index <= count,
            count == stages@.len(),
            copy@ == stages@.take(index as int),
        decreases count - index,
    {
        copy.push(stages[index]);
        index += 1;
        assert(copy@ =~= stages@.take(index as int));
    }
    assert(stages@.take(count as int) =~= stages@);
    Ok(copy)
}

/// Finds the two routes of a plan whose boundary lies on `axis`.
fn find_mixed_routes<H: Fn([u64; 5]) -> bool, D: Fn(Option<Vec<u64>>, Option<usize>) -> Result<Vec<u64>, FftError>, A: Fn(bool) -> bool, P: Fn([usize; N]) -> Result<Pencil<N, M>, FftError>, Q: Fn(Pencil<N, M>, [usize; N], bool) -> Result<RouteCandidate<N, M>, FftError>, T: Fn(&Vec<Stage<N, M>>, &Vec<usize>, &ExtraShape, TransposeMethod, usize) -> Result<TransitionPlan, FftError>, const N: usize, const M: usize>(
    world: &World<H, D, A, P, Q, T>,
    request: &PlanRequest<MixedAsk<N>, N, M>,
    axis: usize,
) -> (result: Result<RoutePair<N, M>, BackendInitError<MixedError>>)
    requires
        world_answers(*world),
        axis < N,
    ensures
        match result {
            Ok(routes) => routes.wf() && mixed_pair_routed(*world, *request, axis as int, routes),
            Err(error) => mixed_pair_refused(*world, *request, axis as int, error),
        },
{
    let found = find_input(&world.pencil, request);
    let input: Pencil<N, M> = match settle(&world.agree, lift::<Pencil<N, M>, BackendInitError<MixedError>>(found)) {
        Ok(input) => input,
        Err(error) => {
            return Err(error);
        },
    };
    let permute: bool = request.layout.permute_dims;
    let question = &world.route;
    let routed = question(input, request.global_shape, permute);
    assert(mixed_routed(*world, *request, routed));
    let original_route: RouteCandidate<N, M> = match settle(&world.agree, lift::<RouteCandidate<N, M>, BackendInitError<MixedError>>(routed)) {
        Ok(route) => route,
        Err(error) => {
            return Err(error);
        },
    };
    assert(mixed_routed(*world, *request, Ok(original_route)));
    let reduced_shape: [usize; N] = reduce_extents(&request.global_shape, axis);
    let question = &world.pencil;
    let placed = question(reduced_shape);
    assert(reduced_input_given(*world, request.global_shape@, axis as int, placed));
    let reduced_input: Pencil<N, M> = match settle(&world.agree, lift::<Pencil<N, M>, BackendInitError<MixedError>>(placed)) {
        Ok(pencil) => pencil,
        Err(error) => {
            return Err(error);
        },
    };
    let question = &world.route;
    let rerouted = question(reduced_input, reduced_shape, permute);
    assert(reduced_input_given(*world, request.global_shape@, axis as int, Ok(reduced_input)));
    assert(reduced_routed(*world, request.global_shape@, permute, axis as int, rerouted));
    let reduced_route: RouteCandidate<N, M> = match settle(&world.agree, lift::<RouteCandidate<N, M>, BackendInitError<MixedError>>(rerouted)) {
        Ok(route) => route,
        Err(error) => {
            return Err(error);
        },
    };
    Ok(
        RoutePair {
            original_route,
            reduced_route,
            original_shape: request.global_shape,
            reduced_shape,
        },
    )
}

/// What the stages of a plan still need.
struct Remainder<const N: usize, const M: usize> {
    raw_absolute_threshold: u64,
    exchanges: TransitionPlan,
    real_pencils: Vec<Pencil<N, M>>,
    complex_pencils: Vec<Pencil<N, M>>,
    lines: (usize, usize),
}

/// Finds what the stages of a plan still need, in `rooms`, of which the lists of words and stages are
/// filled already.
fn complete_stages<H: Fn([u64; 5]) -> bool, D: Fn(Option<Vec<u64>>, Option<usize>) -> Result<Vec<u64>, FftError>, A: Fn(bool) -> bool, P: Fn([usize; N]) -> Result<Pencil<N, M>, FftError>, Q: Fn(Pencil<N, M>, [usize; N], bool) -> Result<RouteCandidate<N, M>, FftError>, T: Fn(&Vec<Stage<N, M>>, &Vec<usize>, &ExtraShape, TransposeMethod, usize) -> Result<TransitionPlan, FftError>, E: Fn(&Vec<DepthTerm>) -> Result<u64, FftError>, const N: usize, const M: usize>(
    world: &World<H, D, A, P, Q, T>,
    threshold: &E,
    request: &PlanRequest<MixedAsk<N>, N, M>,
    boundary: usize,
    complex_len: usize,
    routes: &RoutePair<N, M>,
    prepared: &MixedR2cStages<N, M>,
    copies: Option<Vec<Stage<N, M>>>,
    dimensions: Option<Vec<usize>>,
    real_room: Option<Vec<Pencil<N, M>>>,
    complex_room: Option<Vec<Pencil<N, M>>>,
    Ghost(rooms): Ghost<Rooms<N, M>>,
) -> (result: Result<Remainder<N, M>, BackendInitError<MixedError>>)
    requires
        world_answers(*world),
        rooms.wf(),
        copies == rooms.copies,
        dimensions == rooms.dimensions,
        real_room == rooms.real_pencils,
        complex_room == rooms.complex_pencils,
        forall|terms: &Vec<DepthTerm>| #[trigger] threshold.requires((terms,)),
        boundary < N,
        prepared.stages@.len() == N,
        prepared.locals@.len() == N,
        stages_wf(prepared.stages@),
    ensures
        match result {
            Ok(rest) => {
                &&& rooms.copies is Some
                &&& rooms.dimensions is Some
                &&& rooms.real_pencils is Some
                &&& rooms.complex_pencils is Some
                &&& dimensions_fit(*routes)
                &&& mixed_threshold_given(
                    *threshold,
                    prepared.locals@,
                    boundary as int,
                    Ok(rest.raw_absolute_threshold),
                )
                &&& rest.exchanges.transitions@.len() + 1 == N
                &&& transitions_given(
                    world.transitions,
                    prepared.stages@,
                    joined_dimensions(
                        routes.original_route.distributed@,
                        routes.reduced_route.distributed@,
                        boundary as int,
                    ),
                    request.extra_shape,
                    request.layout.transpose_method,
                    boundary,
                    Ok(rest.exchanges),
                )
                &&& rest.real_pencils@ == distinct_layouts(
                    inputs_of(prepared.stages@.take(boundary + 1)),
                )
                &&& rest.complex_pencils@ == distinct_layouts(
                    outputs_of(prepared.stages@.skip(boundary as int)),
                )
                &&& rest.lines == line_needs(
                    prepared.stages@,
                    prepared.locals@,
                    boundary as int,
                    complex_len,
                )
            },
            Err(error) => mixed_stages_refused(
                *world,
                *threshold,
                *request,
                boundary as int,
                *routes,
                *prepared,
                rooms,
                error,
            ),
        },
{
    let terms: Vec<DepthTerm> = mixed_endpoint_terms(&prepared.locals, boundary);
    let given: &Vec<DepthTerm> = &terms;
    let asked = threshold(given);
    assert(threshold.ensures((given,), asked));
    assert(mixed_threshold_given(*threshold, prepared.locals@, boundary as int, asked));
    let raw_absolute_threshold: u64 = match settle(&world.agree, lift::<u64, BackendInitError<MixedError>>(asked)) {
        Ok(value) => value,
        Err(error) => {
            return Err(error);
        },
    };
    let placed = copy_stages_in(copies, &prepared.stages);
    let stages: Vec<Stage<N, M>> = match settle(&world.agree, lift::<Vec<Stage<N, M>>, BackendInitError<MixedError>>(placed)) {
        Ok(stages) => stages,
        Err(error) => {
            assert(list_refused::<Vec<Stage<N, M>>, A>(
                world.agree,
                N as int,
                rooms.copies is Some,
                error,
            ));
            assert(mixed_lists_refused(*world, *request, boundary as int, *routes, *prepared, rooms, error));
            return Err(error);
        },
    };
    if routes.original_route.distributed.len() != N - 1 || routes.reduced_route.distributed.len()
        != N - 1 {
        return Err(BackendInitError::Local(MixedError::Fft(FftError::PreparationFailed)));
    }
    let listed = join_dimensions_in(
        dimensions,
        &routes.original_route.distributed,
        &routes.reduced_route.distributed,
        boundary,
    );
    let distributed: Vec<usize> = match settle(&world.agree, lift::<Vec<usize>, BackendInitError<MixedError>>(listed)) {
        Ok(list) => list,
        Err(error) => {
            assert(list_refused::<Vec<usize>, A>(
                world.agree,
                N - 1,
                rooms.dimensions is Some,
                error,
            ));
            assert(mixed_lists_refused(*world, *request, boundary as int, *routes, *prepared, rooms, error));
            return Err(error);
        },
    };
    let question = &world.transitions;
    let exchanged = question(
        &stages,
        &distributed,
        &request.extra_shape,
        request.layout.transpose_method,
        boundary,
    );
    assert(transitions_given(
        world.transitions,
        prepared.stages@,
        joined_dimensions(
            routes.original_route.distributed@,
            routes.reduced_route.distributed@,
            boundary as int,
        ),
        request.extra_shape,
        request.layout.transpose_method,
        boundary as int as usize,
        exchanged,
    ));
    let exchanges: TransitionPlan = match settle(&world.agree, lift::<TransitionPlan, BackendInitError<MixedError>>(exchanged)) {
        Ok(plan) => plan,
        Err(error) => {
            assert(mixed_lists_refused(*world, *request, boundary as int, *routes, *prepared, rooms, error));
            return Err(error);
        },
    };
    let reals = registered_real_stage_pencils_in(real_room, &prepared.stages, boundary);
    let real_pencils: Vec<Pencil<N, M>> = match settle(&world.agree, lift::<Vec<Pencil<N, M>>, BackendInitError<MixedError>>(reals)) {
        Ok(pencils) => pencils,
        Err(error) => {
            assert(list_refused::<Vec<Pencil<N, M>>, A>(
                world.agree,
                boundary + 1,
                rooms.real_pencils is Some,
                error,
            ));
            assert(mixed_layouts_refused(world.agree, boundary as int, *prepared, rooms, error));
            assert(mixed_lists_refused(*world, *request, boundary as int, *routes, *prepared, rooms, error));
            return Err(error);
        },
    };
    let halves = registered_stage_pencils_in(complex_room, &prepared.stages, boundary);
    let complex_pencils: Vec<Pencil<N, M>> = match settle(&world.agree, lift::<Vec<Pencil<N, M>>, BackendInitError<MixedError>>(halves)) {
        Ok(pencils) => pencils,
        Err(error) => {
            assert(list_refused::<Vec<Pencil<N, M>>, A>(
                world.agree,
                N - boundary,
                rooms.complex_pencils is Some,
                error,
            ));
            assert(mixed_layouts_refused(world.agree, boundary as int, *prepared, rooms, error));
            assert(mixed_lists_refused(*world, *request, boundary as int, *routes, *prepared, rooms, error));
            return Err(error);
        },
    };
    let needed = strided_line_needs(
        &prepared.stages,
        &prepared.locals,
        boundary,
        complex_len,
    );
    let lines: (usize, usize) = match settle(&world.agree, lift::<(usize, usize), BackendInitError<MixedError>>(needed)) {
        Ok(lines) => lines,
        Err(error) => {
            assert(settled::<(usize, usize), BackendInitError<MixedError>, A>(
                world.agree,
                lifted(needed),
                Err(error),
            ));
            assert(mixed_layouts_refused(world.agree, boundary as int, *prepared, rooms, error));
            assert(mixed_lists_refused(*world, *request, boundary as int, *routes, *prepared, rooms, error));
            return Err(error);
        },
    };
    Ok(Remainder { raw_absolute_threshold, exchanges, real_pencils, complex_pencils, lines })
}

/// Builds a plan whose boundary lies on `axis`, in `rooms`, once its words are agreed on.
fn construct_at<H: Fn([u64; 5]) -> bool, D: Fn(Option<Vec<u64>>, Option<usize>) -> Result<Vec<u64>, FftError>, A: Fn(bool) -> bool, P: Fn([usize; N]) -> Result<Pencil<N, M>, FftError>, Q: Fn(Pencil<N, M>, [usize; N], bool) -> Result<RouteCandidate<N, M>, FftError>, T: Fn(&Vec<Stage<N, M>>, &Vec<usize>, &ExtraShape, TransposeMethod, usize) -> Result<TransitionPlan, FftError>, C: Fn(BackendChoice, usize, bool) -> Result<LocalC2cPlan, BackendInitError<LocalC2cError>>, K: Fn(BackendChoice, AxisR2rKind, usize) -> Result<LocalR2rPlan, BackendInitError<LocalR2rError>>, B: Fn(BackendChoice, usize) -> Result<LocalR2cPlan, BackendInitError<LocalR2cError>>, E: Fn(&Vec<DepthTerm>) -> Result<u64, FftError>, const N: usize, const M: usize>(
    world: &World<H, D, A, P, Q, T>,
    planners: &Planners<C, K, B>,
    threshold: &E,
    id: u64,
    request: PlanRequest<MixedAsk<N>, N, M>,
    axis: usize,
    descriptor: Vec<u64>,
    stage_room: Option<Vec<Stage<N, M>>>,
    copies: Option<Vec<Stage<N, M>>>,
    dimensions: Option<Vec<usize>>,
    real_room: Option<Vec<Pencil<N, M>>>,
    complex_room: Option<Vec<Pencil<N, M>>>,
    Ghost(rooms): Ghost<Rooms<N, M>>,
) -> (result: Result<MixedR2cCore<N, M>, BackendInitError<MixedError>>)
    requires
        world_answers(*world),
        rooms.wf(),
        stage_room == rooms.stages,
        copies == rooms.copies,
        dimensions == rooms.dimensions,
        real_room == rooms.real_pencils,
        complex_room == rooms.complex_pencils,
        half_planners_answer(*planners, *threshold),
        request.extra_shape.wf(),
        axis < N,
    ensures
        match result {
            Ok(core) => {
                &&& core.wf()
                &&& core.boundary == N - 1 - axis
                &&& core.descriptor == descriptor
                &&& core.id == id
                &&& core.extra_shape == request.extra_shape
                &&& core.graph == request.transform.graph
                &&& core.layout == request.layout
                &&& core.strict_array_identity == request.transform.spec_strict()
                &&& mixed_r2c_lens_hold(core)
                &&& mixed_r2c_joined(*world, *planners, *threshold, request, rooms, core)
            },
            Err(error) => mixed_axis_refused(
                *world,
                *planners,
                *threshold,
                request,
                axis as int,
                rooms,
                error,
            ),
        },
{
    let graph: MixedGraph<N> = request.transform.graph;
    let boundary: usize = N - 1 - axis;
    let routes: RoutePair<N, M> = match find_mixed_routes(world, &request, axis) {
        Ok(routes) => routes,
        Err(error) => {
            return Err(error);
        },
    };
    let planned = prepare_mixed_r2c_stages_in(stage_room, planners, &routes, &graph, boundary);
    assert(mixed_r2c_stages_given(
        *planners,
        routes,
        graph,
        N - 1 - axis,
        rooms.stages is Some,
        planned,
    ));
    let prepared: MixedR2cStages<N, M> = match peer_settle(&world.agree, planned) {
        Ok(prepared) => prepared,
        Err(error) => {
            assert(mixed_routes_refused(
                *world,
                *planners,
                *threshold,
                request,
                N - 1 - axis,
                routes,
                rooms,
                error,
            ));
            return Err(error);
        },
    };
    proof {
        assert(mixed_r2c_stage_at(
            *planners,
            routes,
            graph,
            boundary as int,
            boundary as int,
            Ok(prepared.locals@[boundary as int]),
        ));
        assert(exists|planned: Result<LocalR2cPlan, BackendInitError<LocalR2cError>>| #[trigger]
            r2c_planned(
                *planners,
                graph.backend,
                routes.original_shape@[axis as int],
                planned,
            ) && prepared.locals@[boundary as int] == MixedR2cStageLocal::Real(
                MixedRealLocal::Rfft(planned->Ok_0),
            ) && planned is Ok);
    }
    assert forall|i: int| 0 <= i < N && i != boundary implies ((
    #[trigger] prepared.locals@[i]) is Real <==> i < boundary) by {
        assert(mixed_r2c_stage_at(
            *planners,
            routes,
            graph,
            boundary as int,
            i,
            Ok(prepared.locals@[i]),
        ));
    }
    let complex_len: usize = request.global_shape[axis] / 2 + 1;
    let rest: Remainder<N, M> = match complete_stages(
        world,
        threshold,
        &request,
        boundary,
        complex_len,
        &routes,
        &prepared,
        copies,
        dimensions,
        real_room,
        complex_room,
        Ghost(rooms),
    ) {
        Ok(rest) => rest,
        Err(error) => {
            assert(mixed_r2c_stages_given(
                *planners,
                routes,
                graph,
                N - 1 - axis,
                rooms.stages is Some,
                Ok(prepared),
            ));
            assert(mixed_routes_refused(
                *world,
                *planners,
                *threshold,
                request,
                N - 1 - axis,
                routes,
                rooms,
                error,
            ));
            return Err(error);
        },
    };
    let exchanges: TransitionPlan = rest.exchanges;
    let fft_scratch: usize = prepared.lens.fft_scratch_len;
    let ghost plan = exchanges;
    let core = MixedR2cCore {
        id,
        boundary,
        embedding_len: prepared.lens.embedding_len,
        real_line_len: max_len(prepared.lens.real_line_len, rest.lines.0),
        complex_line_len: max_len(prepared.lens.complex_line_len, rest.lines.1),
        stages: prepared.stages,
        locals: prepared.locals,
        real_pencils: rest.real_pencils,
        complex_pencils: rest.complex_pencils,
        extra_shape: request.extra_shape,
        graph,
        layout: request.layout,
        descriptor,
        lens: CommonLens {
            fft_scratch,
            send: exchanges.send_len,
            receive: exchanges.receive_len,
        },
        real_lens: CommonLens {
            fft_scratch,
            send: exchanges.real_send_len,
            receive: exchanges.real_receive_len,
        },
        transitions: exchanges.transitions,
        raw_absolute_threshold: rest.raw_absolute_threshold,
        strict_array_identity: request.transform.strict(),
    };
    assert(mixed_pair_routed(*world, request, N - 1 - core.boundary, routes));
    assert(transitions_given(
        world.transitions,
        core.stages@,
        joined_dimensions(
            routes.original_route.distributed@,
            routes.reduced_route.distributed@,
            core.boundary as int,
        ),
        request.extra_shape,
        request.layout.transpose_method,
        core.boundary,
        Ok(plan),
    ));
    assert(mixed_r2c_joined(*world, *planners, *threshold, request, rooms, core));
    Ok(core)
}

/// Builds a mixed real-to-complex plan in `rooms`. The questions are asked in this order: header,
/// descriptor, signs, transforms, input layout, routes, stages, threshold, exchanges, registered
/// layouts, lines.
pub fn construct_mixed_r2c_in<H: Fn([u64; 5]) -> bool, D: Fn(Option<Vec<u64>>, Option<usize>) -> Result<Vec<u64>, FftError>, A: Fn(bool) -> bool, P: Fn([usize; N]) -> Result<Pencil<N, M>, FftError>, Q: Fn(Pencil<N, M>, [usize; N], bool) -> Result<RouteCandidate<N, M>, FftError>, T: Fn(&Vec<Stage<N, M>>, &Vec<usize>, &ExtraShape, TransposeMethod, usize) -> Result<TransitionPlan, FftError>, C: Fn(BackendChoice, usize, bool) -> Result<LocalC2cPlan, BackendInitError<LocalC2cError>>, K: Fn(BackendChoice, AxisR2rKind, usize) -> Result<LocalR2rPlan, BackendInitError<LocalR2rError>>, B: Fn(BackendChoice, usize) -> Result<LocalR2cPlan, BackendInitError<LocalR2cError>>, E: Fn(&Vec<DepthTerm>) -> Result<u64, FftError>, const N: usize, const M: usize>(
    rooms: Rooms<N, M>,
    world: &World<H, D, A, P, Q, T>,
    planners: &Planners<C, K, B>,
    threshold: &E,
    facts: &MixedFacts<M>,
    request: PlanRequest<MixedAsk<N>, N, M>,
) -> (result: Result<MixedR2cCore<N, M>, BackendInitError<MixedError>>)
    requires
        rooms.wf(),
        world_answers(*world),
        half_planners_answer(*planners, *threshold),
        facts.scalar_bytes == 4 || facts.scalar_bytes == 8,
        request.extra_shape.wf(),
    ensures
        match result {
            Ok(core) => {
                &&& core.wf()
                &&& core.id == facts.id
                &&& core.extra_shape == request.extra_shape
                &&& core.graph == request.transform.graph
                &&& core.layout == request.layout
                &&& core.strict_array_identity == request.transform.spec_strict()
                &&& mixed_r2c_lens_hold(core)
                &&& mixed_r2c_built_in(
                    *world,
                    *planners,
                    *threshold,
                    *facts,
                    request,
                    rooms,
                    core,
                )
            },
            Err(error) => mixed_r2c_refused_in(
                *world,
                *planners,
                *threshold,
                *facts,
                request,
                rooms,
                error,
            ),
        },
{
    let graph: MixedGraph<N> = request.transform.graph;
    let descriptor: Vec<u64> = match agree_mixed_r2c_words(
        rooms.words,
        world,
        facts,
        &request,
    ) {
        Ok(words) => words,
        Err(fault) => {
            return Err(BackendInitError::Local(MixedError::Fft(fault)));
        },
    };
    assert(mixed_r2c_words_given(
        *world,
        *facts,
        request,
        rooms.words is Some,
        Ok(descriptor),
    ));
    let signed = validate_r2c_directions(graph.transforms, graph.directions);
    assert(signs_given(graph, signed));
    match settle(&world.agree, localize(signed)) {
        Ok(_) => {},
        Err(error) => {
            assert(mixed_r2c_unbuilt(*world, *planners, *threshold, request, rooms, error));
            return Err(error);
        },
    }
    let checked = validate_r2c_graph(request.global_shape, graph.transforms);
    assert(boundary_given(request.global_shape@, graph, checked));
    let axis: usize = match settle(&world.agree, localize(checked)) {
        Ok(axis) => axis,
        Err(error) => {
            assert(mixed_r2c_unbuilt(*world, *planners, *threshold, request, rooms, error));
            return Err(error);
        },
    };
    let ghost given = rooms;
    let result = construct_at(
        world,
        planners,
        threshold,
        facts.id,
        request,
        axis,
        descriptor,
        rooms.stages,
        rooms.copies,
        rooms.dimensions,
        rooms.real_pencils,
        rooms.complex_pencils,
        Ghost(given),
    );
    proof {
        if let Err(error) = result {
            assert(mixed_r2c_unbuilt(*world, *planners, *threshold, request, given, error));
        }
    }
    result
}

/// Builds a mixed real-to-complex plan. Whether there is room for its lists rests on the machine;
/// [`construct_mixed_r2c_in`] says what follows for each answer.
pub fn construct_mixed_r2c<H: Fn([u64; 5]) -> bool, D: Fn(Option<Vec<u64>>, Option<usize>) -> Result<Vec<u64>, FftError>, A: Fn(bool) -> bool, P: Fn([usize; N]) -> Result<Pencil<N, M>, FftError>, Q: Fn(Pencil<N, M>, [usize; N], bool) -> Result<RouteCandidate<N, M>, FftError>, T: Fn(&Vec<Stage<N, M>>, &Vec<usize>, &ExtraShape, TransposeMethod, usize) -> Result<TransitionPlan, FftError>, C: Fn(BackendChoice, usize, bool) -> Result<LocalC2cPlan, BackendInitError<LocalC2cError>>, K: Fn(BackendChoice, AxisR2rKind, usize) -> Result<LocalR2rPlan, BackendInitError<LocalR2rError>>, B: Fn(BackendChoice, usize) -> Result<LocalR2cPlan, BackendInitError<LocalR2cError>>, E: Fn(&Vec<DepthTerm>) -> Result<u64, FftError>, const N: usize, const M: usize>(
    world: &World<H, D, A, P, Q, T>,
    planners: &Planners<C, K, B>,
    threshold: &E,
    facts: &MixedFacts<M>,
    request: PlanRequest<MixedAsk<N>, N, M>,
) -> (result: Result<MixedR2cCore<N, M>, BackendInitError<MixedError>>)
    requires
        world_answers(*world),
        half_planners_answer(*planners, *threshold),
        facts.scalar_bytes == 4 || facts.scalar_bytes == 8,
        request.extra_shape.wf(),
    ensures
        match result {
            Ok(core) => {
                &&& core.wf()
                &&& core.id == facts.id
                &&& core.extra_shape == request.extra_shape
                &&& core.graph == request.transform.graph
                &&& core.layout == request.layout
                &&& core.strict_array_identity == request.transform.spec_strict()
                &&& mixed_r2c_lens_hold(core)
                &&& mixed_r2c_built(*world, *planners, *threshold, *facts, request, core)
            },
            Err(error) => mixed_r2c_refused(
                *world,
                *planners,
                *threshold,
                *facts,
                request,
                error,
            ),
        },
{
    let (real_room, complex_room): (Option<Vec<Pencil<N, M>>>, Option<Vec<Pencil<N, M>>>) =
        match validate_r2c_graph(request.global_shape, request.transform.graph.transforms) {
        Ok(axis) => (room_for(N - axis), room_for(axis + 1)),
        Err(_) => (None, None),
    };
    let rooms: Rooms<N, M> = Rooms {
        words: descriptor_room(full_descriptor_len::<N, M>(&request.extra_shape)),
        stages: room_for(N),
        copies: room_for(N),
        dimensions: room_for(if N > 0 {
            N - 1
        } else {
            0
        }),
        real_pencils: real_room,
        complex_pencils: complex_room,
    };
    construct_mixed_r2c_in(rooms, world, planners, threshold, facts, request)
}

} // verus!
