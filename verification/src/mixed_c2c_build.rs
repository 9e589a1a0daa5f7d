//! How a mixed complex plan is built.

use vstd::prelude::*;

use crate::error::BackendInitError;
use crate::error::FftError;
use crate::error::LocalC2cError;
use crate::error::LocalR2cError;
use crate::error::LocalR2rError;
use crate::error::MixedError;
use crate::graph::validate_c2c_graph;
use crate::graph::validate_r2c_directions;
use crate::layout::FourierDirection;
use crate::layout::Pencil;
use crate::layout::TransposeMethod;
use crate::layout::ExtraShape;
use crate::local::AxisR2rKind;
use crate::local::AxisTransform;
use crate::local::BackendChoice;
use crate::local::LocalC2cPlan;
use crate::local::LocalR2cPlan;
use crate::local::LocalR2rPlan;
use crate::local::MixedComplexLocal;
use crate::mixed_build::full_descriptor_len;
use crate::mixed_build::full_len;
use crate::mixed_build::list_refused;
use crate::mixed_build::localize;
use crate::mixed_build::localized;
use crate::mixed_build::peer_settle;
use crate::mixed_build::peer_settled;
use crate::mixed_build::plan_operation;
use crate::mixed_build::spec_plan_operation;
use crate::mixed_build::MixedAsk;
use crate::mixed_build::MixedFacts;
use crate::mixed_c2c::MixedC2cCore;
use crate::mixed_prepare::mixed_c2c_stage_at;
use crate::mixed_prepare::mixed_c2c_stages_before;
use crate::mixed_prepare::planners_answer;
use crate::mixed_prepare::preparation_failed;
use crate::mixed_prepare::prepare_mixed_c2c_stages_in;
use crate::mixed_prepare::strided_complex_lines;
use crate::mixed_prepare::MixedC2cStages;
use crate::mixed_prepare::MixedGraph;
use crate::mixed_prepare::Planners;
use crate::prepare::largest_of;
use crate::prepare::RouteCandidate;
use crate::r2r_build::transitions_given;
use crate::registry::is_empty_room;
use crate::registry::registered_stage_pencils_in;
use crate::registry::room_for;
use crate::registry::Stage;
use crate::request::PlanRequest;
use crate::rooms::Rooms;
use crate::transition::TransitionPlan;
use crate::words::descriptor_room;
use crate::words::header_words;
use crate::words::lemma_empty_front;
use crate::words::mixed_descriptor_words;
use crate::words::mixed_header;
use crate::words::operation_word_of;
use crate::words::sign_words;
use crate::words::word_for;
use crate::words::write_backend_words;
use crate::words::write_mixed_descriptor;
use crate::words::MixedDescriptorFacts;
use crate::words::PlanFamily;
use crate::workspace::CommonLens;
use crate::world::agree_words;
use crate::world::find_input;
use crate::world::input_given;
use crate::world::lift;
use crate::world::lifted;
use crate::world::settle;
use crate::world::settled;
use crate::world::words_agreed;
use crate::world::world_answers;
use crate::world::World;

verus! {

/// The words of a plan are agreed on, or not: an own descriptor is what describes the plan, and there
/// is one where room for it was granted.
pub open spec fn mixed_c2c_words_given<H: Fn([u64; 5]) -> bool, D: Fn(Option<Vec<u64>>, Option<usize>) -> Result<Vec<u64>, FftError>, A: Fn(bool) -> bool, P: Fn([usize; N]) -> Result<Pencil<N, M>, FftError>, Q: Fn(Pencil<N, M>, [usize; N], bool) -> Result<RouteCandidate<N, M>, FftError>, T: Fn(&Vec<Stage<N, M>>, &Vec<usize>, &ExtraShape, TransposeMethod, usize) -> Result<TransitionPlan, FftError>, const N: usize, const M: usize>(
    world: World<H, D, A, P, Q, T>,
    facts: MixedFacts<M>,
    request: PlanRequest<MixedAsk<N>, N, M>,
    granted: bool,
    outcome: Result<Vec<u64>, FftError>,
) -> bool {
    exists|header: [u64; 5], own: Option<Vec<u64>>, len: Option<usize>|
        {
            &&& #[trigger] words_agreed(world.header, world.descriptor, header, own, len, outcome)
            &&& len == full_len(
                N as int,
                M as int,
                request.extra_shape.dimensions@.len() as int,
            )
            &&& operation_word_of(
                spec_plan_operation(PlanFamily::MixedC2c, request.transform.graph.backend),
            ) matches Some(word) && header@ == header_words(word, N as int, M as int, len)
            &&& own is Some <==> granted
            &&& own is Some ==> own->0@ == mixed_descriptor_words(
                request.global_shape@,
                request.global_shape@,
                facts.process_grid@,
                request.extra_shape.dimensions@,
                (MixedDescriptorFacts {
                    family: 1,
                    scalar_bytes: facts.scalar_bytes,
                    reduction_axis: usize::MAX,
                    original_len: 0,
                    layout: request.layout,
                }),
                request.transform.graph.transforms,
            ) + facts.backend_words@ + sign_words(request.transform.graph.directions)
        }
}

fn agree_mixed_c2c_words<H: Fn([u64; 5]) -> bool, D: Fn(Option<Vec<u64>>, Option<usize>) -> Result<Vec<u64>, FftError>, A: Fn(bool) -> bool, P: Fn([usize; N]) -> Result<Pencil<N, M>, FftError>, Q: Fn(Pencil<N, M>, [usize; N], bool) -> Result<RouteCandidate<N, M>, FftError>, T: Fn(&Vec<Stage<N, M>>, &Vec<usize>, &ExtraShape, TransposeMethod, usize) -> Result<TransitionPlan, FftError>, const N: usize, const M: usize>(
    room: Option<Vec<u64>>,
    world: &World<H, D, A, P, Q, T>,
    facts: &MixedFacts<M>,
    request: &PlanRequest<MixedAsk<N>, N, M>,
) -> (outcome: Result<Vec<u64>, FftError>)
    requires
        is_empty_room(room),
        world_answers(*world),
        facts.scalar_bytes == 4 || facts.scalar_bytes == 8,
    ensures
        mixed_c2c_words_given(*world, *facts, *request, room is Some, outcome),
{
    let len: Option<usize> = full_descriptor_len::<N, M>(&request.extra_shape);
    let described: Option<Vec<u64>> = write_mixed_descriptor(
        room,
        &facts.process_grid,
        &request.global_shape,
        &request.global_shape,
        &request.extra_shape,
        &request.transform.graph.transforms,
        &MixedDescriptorFacts {
            family: 1,
            scalar_bytes: facts.scalar_bytes,
            reduction_axis: usize::MAX,
            original_len: 0,
            layout: request.layout,
        },
    );
    proof {
        if room is Some {
            lemma_empty_front(
                room->0@,
                mixed_descriptor_words(
                    request.global_shape@,
                    request.global_shape@,
                    facts.process_grid@,
                    request.extra_shape.dimensions@,
                    (MixedDescriptorFacts {
                        family: 1,
                        scalar_bytes: facts.scalar_bytes,
                        reduction_axis: usize::MAX,
                        original_len: 0,
                        layout: request.layout,
                    }),
                    request.transform.graph.transforms,
                ),
            );
        }
    }
    let own: Option<Vec<u64>> = write_backend_words(
        described,
        &facts.backend_words,
        &request.transform.graph.directions,
    );
    let operation = plan_operation(PlanFamily::MixedC2c, request.transform.graph.backend);
    let header: [u64; 5] = mixed_header::<N, M>(word_for(operation), len);
    agree_words(&world.header, &world.descriptor, header, own, len)
}

/// What the check of the transforms comes to.
pub open spec fn c2c_graph_given<const N: usize>(
    graph: MixedGraph<N>,
    outcome: Result<(), MixedError>,
) -> bool {
    if exists|axis: int| 0 <= axis < N && #[trigger] graph.transforms@[axis] == AxisTransform::Rfft {
        outcome == Err::<(), MixedError>(MixedError::InvalidGraph)
    } else {
        outcome is Ok
    }
}

/// What the check of the signs comes to.
pub open spec fn signs_given<const N: usize>(
    graph: MixedGraph<N>,
    outcome: Result<(), MixedError>,
) -> bool {
    if exists|axis: int|
        0 <= axis < N && #[trigger] graph.directions.0@[axis] == FourierDirection::Backward
            && graph.transforms@[axis] != AxisTransform::Fft {
        outcome == Err::<(), MixedError>(MixedError::Fft(FftError::PreparationFailed))
    } else {
        outcome is Ok
    }
}

/// Stage `i` transforms axis `N - 1 - i` where it lies, with the kernel that the planners gave.
pub open spec fn mixed_c2c_stages_hold<C: Fn(BackendChoice, usize, bool) -> Result<LocalC2cPlan, BackendInitError<LocalC2cError>>, K: Fn(BackendChoice, AxisR2rKind, usize) -> Result<LocalR2rPlan, BackendInitError<LocalR2rError>>, B: Fn(BackendChoice, usize) -> Result<LocalR2cPlan, BackendInitError<LocalR2cError>>, const N: usize, const M: usize>(
    planners: Planners<C, K, B>,
    pencils: Seq<Pencil<N, M>>,
    shape: Seq<usize>,
    graph: MixedGraph<N>,
    stages: Seq<Stage<N, M>>,
    locals: Seq<MixedComplexLocal>,
) -> bool {
    &&& stages.len() == N
    &&& locals.len() == N
    &&& forall|i: int|
        0 <= i < N ==> {
            &&& (#[trigger] stages[i]).axis == N - 1 - i
            &&& stages[i].input == pencils[i]
            &&& stages[i].output == pencils[i]
        }
    &&& forall|i: int|
        0 <= i < N ==> mixed_c2c_stage_at(
            planners,
            pencils,
            shape,
            graph,
            i,
            Ok(#[trigger] locals[i]),
        )
}

/// The outcome of preparing stages along a route, where room for them was granted or not.
pub open spec fn mixed_c2c_stages_given<C: Fn(BackendChoice, usize, bool) -> Result<LocalC2cPlan, BackendInitError<LocalC2cError>>, K: Fn(BackendChoice, AxisR2rKind, usize) -> Result<LocalR2rPlan, BackendInitError<LocalR2rError>>, B: Fn(BackendChoice, usize) -> Result<LocalR2cPlan, BackendInitError<LocalR2cError>>, const N: usize, const M: usize>(
    planners: Planners<C, K, B>,
    route: RouteCandidate<N, M>,
    shape: Seq<usize>,
    graph: MixedGraph<N>,
    granted: bool,
    outcome: Result<MixedC2cStages<N, M>, BackendInitError<MixedError>>,
) -> bool {
    if route.stages@.len() != N {
        outcome == Err::<MixedC2cStages<N, M>, BackendInitError<MixedError>>(preparation_failed())
    } else if !granted {
        outcome == Err::<MixedC2cStages<N, M>, BackendInitError<MixedError>>(
            BackendInitError::Local(MixedError::Fft(FftError::AllocationFailed { required: N })),
        )
    } else {
        match outcome {
            Ok(prepared) => {
                &&& mixed_c2c_stages_hold(
                    planners,
                    route.stages@,
                    shape,
                    graph,
                    prepared.stages@,
                    prepared.locals@,
                )
                &&& mixed_c2c_lens_hold(prepared)
            },
            Err(error) => exists|i: int|
                0 <= i < N && #[trigger] mixed_c2c_stage_at(
                    planners,
                    route.stages@,
                    shape,
                    graph,
                    i,
                    Err(error),
                ) && mixed_c2c_stages_before(planners, route.stages@, shape, graph, i),
        }
    }
}

/// The buffers are as long as the longest need.
pub open spec fn mixed_c2c_lens_hold<const N: usize, const M: usize>(
    prepared: MixedC2cStages<N, M>,
) -> bool {
    &&& prepared.embedding_len == largest_of(
        prepared.locals@.map_values(|local: MixedComplexLocal| local.spec_embedding_len()),
    )
    &&& prepared.fft_scratch_len == largest_of(
        prepared.locals@.map_values(|local: MixedComplexLocal| local.spec_scratch_len()),
    )
    &&& prepared.strided_line_len == largest_of(
        strided_complex_lines(prepared.stages@, prepared.locals@),
    )
}

/// A route from the layout that the plan starts from.
pub open spec fn mixed_routed<H: Fn([u64; 5]) -> bool, D: Fn(Option<Vec<u64>>, Option<usize>) -> Result<Vec<u64>, FftError>, A: Fn(bool) -> bool, P: Fn([usize; N]) -> Result<Pencil<N, M>, FftError>, Q: Fn(Pencil<N, M>, [usize; N], bool) -> Result<RouteCandidate<N, M>, FftError>, T: Fn(&Vec<Stage<N, M>>, &Vec<usize>, &ExtraShape, TransposeMethod, usize) -> Result<TransitionPlan, FftError>, const N: usize, const M: usize>(
    world: World<H, D, A, P, Q, T>,
    request: PlanRequest<MixedAsk<N>, N, M>,
    local: Result<RouteCandidate<N, M>, FftError>,
) -> bool {
    exists|input: Pencil<N, M>|
        {
            &&& input_given(world.pencil, request, Ok(input))
            &&& #[trigger] world.route.ensures(
                (input, request.global_shape, request.layout.permute_dims),
                local,
            )
        }
}

/// The stages along such a route.
pub open spec fn mixed_c2c_staged<H: Fn([u64; 5]) -> bool, D: Fn(Option<Vec<u64>>, Option<usize>) -> Result<Vec<u64>, FftError>, A: Fn(bool) -> bool, P: Fn([usize; N]) -> Result<Pencil<N, M>, FftError>, Q: Fn(Pencil<N, M>, [usize; N], bool) -> Result<RouteCandidate<N, M>, FftError>, T: Fn(&Vec<Stage<N, M>>, &Vec<usize>, &ExtraShape, TransposeMethod, usize) -> Result<TransitionPlan, FftError>, C: Fn(BackendChoice, usize, bool) -> Result<LocalC2cPlan, BackendInitError<LocalC2cError>>, K: Fn(BackendChoice, AxisR2rKind, usize) -> Result<LocalR2rPlan, BackendInitError<LocalR2rError>>, B: Fn(BackendChoice, usize) -> Result<LocalR2cPlan, BackendInitError<LocalR2cError>>, const N: usize, const M: usize>(
    world: World<H, D, A, P, Q, T>,
    planners: Planners<C, K, B>,
    request: PlanRequest<MixedAsk<N>, N, M>,
    route: RouteCandidate<N, M>,
    granted: bool,
    local: Result<MixedC2cStages<N, M>, BackendInitError<MixedError>>,
) -> bool {
    &&& mixed_routed(world, request, Ok(route))
    &&& mixed_c2c_stages_given(
        planners,
        route,
        request.global_shape@,
        request.transform.graph,
        granted,
        local,
    )
}

/// A plan that was built in `rooms`: all questions were answered, and the plan holds the answers.
pub open spec fn mixed_c2c_built_in<H: Fn([u64; 5]) -> bool, D: Fn(Option<Vec<u64>>, Option<usize>) -> Result<Vec<u64>, FftError>, A: Fn(bool) -> bool, P: Fn([usize; N]) -> Result<Pencil<N, M>, FftError>, Q: Fn(Pencil<N, M>, [usize; N], bool) -> Result<RouteCandidate<N, M>, FftError>, T: Fn(&Vec<Stage<N, M>>, &Vec<usize>, &ExtraShape, TransposeMethod, usize) -> Result<TransitionPlan, FftError>, C: Fn(BackendChoice, usize, bool) -> Result<LocalC2cPlan, BackendInitError<LocalC2cError>>, K: Fn(BackendChoice, AxisR2rKind, usize) -> Result<LocalR2rPlan, BackendInitError<LocalR2rError>>, B: Fn(BackendChoice, usize) -> Result<LocalR2cPlan, BackendInitError<LocalR2cError>>, const N: usize, const M: usize>(
    world: World<H, D, A, P, Q, T>,
    planners: Planners<C, K, B>,
    facts: MixedFacts<M>,
    request: PlanRequest<MixedAsk<N>, N, M>,
    rooms: Rooms<N, M>,
    core: MixedC2cCore<N, M>,
) -> bool {
    exists|route: RouteCandidate<N, M>, exchanges: TransitionPlan|
        {
            &&& mixed_c2c_words_given(
                world,
                facts,
                request,
                rooms.words is Some,
                Ok(core.descriptor),
            )
            &&& c2c_graph_given(request.transform.graph, Ok(()))
            &&& signs_given(request.transform.graph, Ok(()))
            &&& #[trigger] mixed_routed(world, request, Ok(route))
            &&& rooms.stages is Some
            &&& rooms.complex_pencils is Some
            &&& route.stages@.len() == N
            &&& mixed_c2c_stages_hold(
                planners,
                route.stages@,
                request.global_shape@,
                request.transform.graph,
                core.stages@,
                core.locals@,
            )
            &&& #[trigger] transitions_given(
                world.transitions,
                core.stages@,
                route.distributed@,
                request.extra_shape,
                request.layout.transpose_method,
                0,
                Ok(exchanges),
            )
            &&& core.transitions == exchanges.transitions
            &&& core.lens == CommonLens {
                fft_scratch: largest_of(
                    core.locals@.map_values(|local: MixedComplexLocal| local.spec_scratch_len()),
                ),
                send: exchanges.send_len,
                receive: exchanges.receive_len,
            }
        }
}

/// Why a plan with sound transforms and signs was not built in `rooms`.
pub open spec fn mixed_c2c_unrouted<H: Fn([u64; 5]) -> bool, D: Fn(Option<Vec<u64>>, Option<usize>) -> Result<Vec<u64>, FftError>, A: Fn(bool) -> bool, P: Fn([usize; N]) -> Result<Pencil<N, M>, FftError>, Q: Fn(Pencil<N, M>, [usize; N], bool) -> Result<RouteCandidate<N, M>, FftError>, T: Fn(&Vec<Stage<N, M>>, &Vec<usize>, &ExtraShape, TransposeMethod, usize) -> Result<TransitionPlan, FftError>, C: Fn(BackendChoice, usize, bool) -> Result<LocalC2cPlan, BackendInitError<LocalC2cError>>, K: Fn(BackendChoice, AxisR2rKind, usize) -> Result<LocalR2rPlan, BackendInitError<LocalR2rError>>, B: Fn(BackendChoice, usize) -> Result<LocalR2cPlan, BackendInitError<LocalR2cError>>, const N: usize, const M: usize>(
    world: World<H, D, A, P, Q, T>,
    planners: Planners<C, K, B>,
    request: PlanRequest<MixedAsk<N>, N, M>,
    rooms: Rooms<N, M>,
    error: BackendInitError<MixedError>,
) -> bool {
    ||| exists|local: Result<Pencil<N, M>, FftError>| #[trigger]
        input_given(world.pencil, request, local) && settled::<
            Pencil<N, M>,
            BackendInitError<MixedError>,
            A,
        >(world.agree, lifted(local), Err(error))
    ||| exists|local: Result<RouteCandidate<N, M>, FftError>| #[trigger]
        mixed_routed(world, request, local) && settled::<
            RouteCandidate<N, M>,
            BackendInitError<MixedError>,
            A,
        >(world.agree, lifted(local), Err(error))
    ||| exists|
        route: RouteCandidate<N, M>,
        local: Result<MixedC2cStages<N, M>, BackendInitError<MixedError>>,
    | #[trigger]
        mixed_c2c_staged(world, planners, request, route, rooms.stages is Some, local) && peer_settled(
            world.agree,
            local,
            Err(error),
        )
    ||| exists|route: RouteCandidate<N, M>, prepared: MixedC2cStages<N, M>|
        {
            &&& #[trigger] mixed_c2c_staged(
                world,
                planners,
                request,
                route,
                rooms.stages is Some,
                Ok(prepared),
            )
            &&& list_refused::<Vec<Pencil<N, M>>, A>(
                world.agree,
                N as int,
                rooms.complex_pencils is Some,
                error,
            )
        }
    ||| exists|
        route: RouteCandidate<N, M>,
        prepared: MixedC2cStages<N, M>,
        local: Result<TransitionPlan, FftError>,
    |
        {
            &&& #[trigger] mixed_c2c_staged(
                world,
                planners,
                request,
                route,
                rooms.stages is Some,
                Ok(prepared),
            )
            &&& rooms.complex_pencils is Some
            &&& #[trigger] transitions_given(
                world.transitions,
                prepared.stages@,
                route.distributed@,
                request.extra_shape,
                request.layout.transpose_method,
                0,
                local,
            )
            &&& settled::<TransitionPlan, BackendInitError<MixedError>, A>(
                world.agree,
                lifted(local),
                Err(error),
            )
        }
}

/// Why a plan whose words are agreed on was not built in `rooms`: the first question that failed, or
/// that another process could not answer.
pub open spec fn mixed_c2c_unbuilt<H: Fn([u64; 5]) -> bool, D: Fn(Option<Vec<u64>>, Option<usize>) -> Result<Vec<u64>, FftError>, A: Fn(bool) -> bool, P: Fn([usize; N]) -> Result<Pencil<N, M>, FftError>, Q: Fn(Pencil<N, M>, [usize; N], bool) -> Result<RouteCandidate<N, M>, FftError>, T: Fn(&Vec<Stage<N, M>>, &Vec<usize>, &ExtraShape, TransposeMethod, usize) -> Result<TransitionPlan, FftError>, C: Fn(BackendChoice, usize, bool) -> Result<LocalC2cPlan, BackendInitError<LocalC2cError>>, K: Fn(BackendChoice, AxisR2rKind, usize) -> Result<LocalR2rPlan, BackendInitError<LocalR2rError>>, B: Fn(BackendChoice, usize) -> Result<LocalR2cPlan, BackendInitError<LocalR2cError>>, const N: usize, const M: usize>(
    world: World<H, D, A, P, Q, T>,
    planners: Planners<C, K, B>,
    request: PlanRequest<MixedAsk<N>, N, M>,
    rooms: Rooms<N, M>,
    error: BackendInitError<MixedError>,
) -> bool {
    let graph = request.transform.graph;
    ||| exists|local: Result<(), MixedError>| #[trigger]
        c2c_graph_given(graph, local) && settled::<(), BackendInitError<MixedError>, A>(
            world.agree,
            localized(local),
            Err(error),
        )
    ||| exists|local: Result<(), MixedError>|
        {
            &&& c2c_graph_given(graph, Ok(()))
            &&& #[trigger] signs_given(graph, local)
            &&& settled::<(), BackendInitError<MixedError>, A>(
                world.agree,
                localized(local),
                Err(error),
            )
        }
    ||| {
        &&& c2c_graph_given(graph, Ok(()))
        &&& signs_given(graph, Ok(()))
        &&& mixed_c2c_unrouted(world, planners, request, rooms, error)
    }
}

/// Why a plan was not built in `rooms`.
pub open spec fn mixed_c2c_refused_in<H: Fn([u64; 5]) -> bool, D: Fn(Option<Vec<u64>>, Option<usize>) -> Result<Vec<u64>, FftError>, A: Fn(bool) -> bool, P: Fn([usize; N]) -> Result<Pencil<N, M>, FftError>, Q: Fn(Pencil<N, M>, [usize; N], bool) -> Result<RouteCandidate<N, M>, FftError>, T: Fn(&Vec<Stage<N, M>>, &Vec<usize>, &ExtraShape, TransposeMethod, usize) -> Result<TransitionPlan, FftError>, C: Fn(BackendChoice, usize, bool) -> Result<LocalC2cPlan, BackendInitError<LocalC2cError>>, K: Fn(BackendChoice, AxisR2rKind, usize) -> Result<LocalR2rPlan, BackendInitError<LocalR2rError>>, B: Fn(BackendChoice, usize) -> Result<LocalR2cPlan, BackendInitError<LocalR2cError>>, const N: usize, const M: usize>(
    world: World<H, D, A, P, Q, T>,
    planners: Planners<C, K, B>,
    facts: MixedFacts<M>,
    request: PlanRequest<MixedAsk<N>, N, M>,
    rooms: Rooms<N, M>,
    error: BackendInitError<MixedError>,
) -> bool {
    ||| exists|fault: FftError| #[trigger]
        mixed_c2c_words_given(world, facts, request, rooms.words is Some, Err(fault)) && error
            == BackendInitError::Local(MixedError::Fft(fault))
    ||| exists|words: Vec<u64>| #[trigger]
        mixed_c2c_words_given(world, facts, request, rooms.words is Some, Ok(words))
            && mixed_c2c_unbuilt(world, planners, request, rooms, error)
}

/// A plan that was built in whatever rooms there were.
pub open spec fn mixed_c2c_built<H: Fn([u64; 5]) -> bool, D: Fn(Option<Vec<u64>>, Option<usize>) -> Result<Vec<u64>, FftError>, A: Fn(bool) -> bool, P: Fn([usize; N]) -> Result<Pencil<N, M>, FftError>, Q: Fn(Pencil<N, M>, [usize; N], bool) -> Result<RouteCandidate<N, M>, FftError>, T: Fn(&Vec<Stage<N, M>>, &Vec<usize>, &ExtraShape, TransposeMethod, usize) -> Result<TransitionPlan, FftError>, C: Fn(BackendChoice, usize, bool) -> Result<LocalC2cPlan, BackendInitError<LocalC2cError>>, K: Fn(BackendChoice, AxisR2rKind, usize) -> Result<LocalR2rPlan, BackendInitError<LocalR2rError>>, B: Fn(BackendChoice, usize) -> Result<LocalR2cPlan, BackendInitError<LocalR2cError>>, const N: usize, const M: usize>(
    world: World<H, D, A, P, Q, T>,
    planners: Planners<C, K, B>,
    facts: MixedFacts<M>,
    request: PlanRequest<MixedAsk<N>, N, M>,
    core: MixedC2cCore<N, M>,
) -> bool {
    exists|rooms: Rooms<N, M>| #[trigger]
        mixed_c2c_built_in(world, planners, facts, request, rooms, core)
}

/// Why a plan was not built in whatever rooms there were.
pub open spec fn mixed_c2c_refused<H: Fn([u64; 5]) -> bool, D: Fn(Option<Vec<u64>>, Option<usize>) -> Result<Vec<u64>, FftError>, A: Fn(bool) -> bool, P: Fn([usize; N]) -> Result<Pencil<N, M>, FftError>, Q: Fn(Pencil<N, M>, [usize; N], bool) -> Result<RouteCandidate<N, M>, FftError>, T: Fn(&Vec<Stage<N, M>>, &Vec<usize>, &ExtraShape, TransposeMethod, usize) -> Result<TransitionPlan, FftError>, C: Fn(BackendChoice, usize, bool) -> Result<LocalC2cPlan, BackendInitError<LocalC2cError>>, K: Fn(BackendChoice, AxisR2rKind, usize) -> Result<LocalR2rPlan, BackendInitError<LocalR2rError>>, B: Fn(BackendChoice, usize) -> Result<LocalR2cPlan, BackendInitError<LocalR2cError>>, const N: usize, const M: usize>(
    world: World<H, D, A, P, Q, T>,
    planners: Planners<C, K, B>,
    facts: MixedFacts<M>,
    request: PlanRequest<MixedAsk<N>, N, M>,
    error: BackendInitError<MixedError>,
) -> bool {
    exists|rooms: Rooms<N, M>| #[trigger]
        mixed_c2c_refused_in(world, planners, facts, request, rooms, error)
}

/// Builds a mixed complex plan in `rooms`. The questions are asked in this order: header, descriptor,
/// transforms, signs, input layout, route, stages, registered layouts, exchanges.
pub fn construct_mixed_c2c_in<H: Fn([u64; 5]) -> bool, D: Fn(Option<Vec<u64>>, Option<usize>) -> Result<Vec<u64>, FftError>, A: Fn(bool) -> bool, P: Fn([usize; N]) -> Result<Pencil<N, M>, FftError>, Q: Fn(Pencil<N, M>, [usize; N], bool) -> Result<RouteCandidate<N, M>, FftError>, T: Fn(&Vec<Stage<N, M>>, &Vec<usize>, &ExtraShape, TransposeMethod, usize) -> Result<TransitionPlan, FftError>, C: Fn(BackendChoice, usize, bool) -> Result<LocalC2cPlan, BackendInitError<LocalC2cError>>, K: Fn(BackendChoice, AxisR2rKind, usize) -> Result<LocalR2rPlan, BackendInitError<LocalR2rError>>, B: Fn(BackendChoice, usize) -> Result<LocalR2cPlan, BackendInitError<LocalR2cError>>, const N: usize, const M: usize>(
    rooms: Rooms<N, M>,
    world: &World<H, D, A, P, Q, T>,
    planners: &Planners<C, K, B>,
    facts: &MixedFacts<M>,
    request: PlanRequest<MixedAsk<N>, N, M>,
) -> (result: Result<MixedC2cCore<N, M>, BackendInitError<MixedError>>)
    requires
        rooms.wf(),
        N >= 1,
        world_answers(*world),
        planners_answer(*planners),
        facts.scalar_bytes == 4 || facts.scalar_bytes == 8,
        request.extra_shape.wf(),
    ensures
        match result {
            Ok(core) => {
                &&& core.wf()
                &&& core.id == facts.id
                &&& core.extra_shape == request.extra_shape
                &&& core.graph == request.transform.graph
                &&& core.layout == request.layout
                &&& core.strict_array_identity == request.transform.spec_strict()
                &&& core.embedding_len == largest_of(
                    core.locals@.map_values(
                        |local: MixedComplexLocal| local.spec_embedding_len(),
                    ),
                )
                &&& core.strided_line_len == largest_of(
                    strided_complex_lines(core.stages@, core.locals@),
                )
                &&& mixed_c2c_built_in(*world, *planners, *facts, request, rooms, core)
            },
            Err(error) => mixed_c2c_refused_in(
                *world,
                *planners,
                *facts,
                request,
                rooms,
                error,
            ),
        },
{
    let graph: MixedGraph<N> = request.transform.graph;
    let descriptor: Vec<u64> = match agree_mixed_c2c_words(
        rooms.words,
        world,
        facts,
        &request,
    ) {
        Ok(words) => words,
        Err(fault) => {
            return Err(BackendInitError::Local(MixedError::Fft(fault)));
        },
    };
    assert(mixed_c2c_words_given(
        *world,
        *facts,
        request,
        rooms.words is Some,
        Ok(descriptor),
    ));
    let checked = validate_c2c_graph(graph.transforms);
    assert(c2c_graph_given(graph, checked));
    match settle(&world.agree, localize(checked)) {
        Ok(_) => {},
        Err(error) => {
            assert(mixed_c2c_unbuilt(*world, *planners, request, rooms, error));
            return Err(error);
        },
    }
    let signed = validate_r2c_directions(graph.transforms, graph.directions);
    assert(signs_given(graph, signed));
    match settle(&world.agree, localize(signed)) {
        Ok(_) => {},
        Err(error) => {
            assert(mixed_c2c_unbuilt(*world, *planners, request, rooms, error));
            return Err(error);
        },
    }
    let found = find_input(&world.pencil, &request);
    let input: Pencil<N, M> = match settle(
        &world.agree,
        lift::<Pencil<N, M>, BackendInitError<MixedError>>(found),
    ) {
        Ok(input) => input,
        Err(error) => {
            assert(mixed_c2c_unbuilt(*world, *planners, request, rooms, error));
            return Err(error);
        },
    };
    let question = &world.route;
    let routed = question(input, request.global_shape, request.layout.permute_dims);
    assert(mixed_routed(*world, request, routed));
    let route: RouteCandidate<N, M> = match settle(
        &world.agree,
        lift::<RouteCandidate<N, M>, BackendInitError<MixedError>>(routed),
    ) {
        Ok(route) => route,
        Err(error) => {
            assert(mixed_c2c_unbuilt(*world, *planners, request, rooms, error));
            return Err(error);
        },
    };
    assert(mixed_routed(*world, request, Ok(route)));
    let planned = prepare_mixed_c2c_stages_in(
        rooms.stages,
        planners,
        &route,
        &request.global_shape,
        &graph,
    );
    assert(mixed_c2c_staged(
        *world,
        *planners,
        request,
        route,
        rooms.stages is Some,
        planned,
    ));
    let prepared: MixedC2cStages<N, M> = match peer_settle(&world.agree, planned) {
        Ok(prepared) => prepared,
        Err(error) => {
            assert(mixed_c2c_unbuilt(*world, *planners, request, rooms, error));
            return Err(error);
        },
    };
    assert(mixed_c2c_staged(
        *world,
        *planners,
        request,
        route,
        rooms.stages is Some,
        Ok(prepared),
    ));
    let registered = registered_stage_pencils_in(rooms.complex_pencils, &prepared.stages, 0);
    assert(prepared.stages@.skip(0) =~= prepared.stages@);
    let registered_pencils: Vec<Pencil<N, M>> = match settle(
        &world.agree,
        lift::<Vec<Pencil<N, M>>, BackendInitError<MixedError>>(registered),
    ) {
        Ok(pencils) => pencils,
        Err(error) => {
            assert(list_refused::<Vec<Pencil<N, M>>, A>(
                world.agree,
                N as int,
                rooms.complex_pencils is Some,
                error,
            ));
            assert(mixed_c2c_unbuilt(*world, *planners, request, rooms, error));
            return Err(error);
        },
    };
    let question = &world.transitions;
    let exchanged = question(
        &prepared.stages,
        &route.distributed,
        &request.extra_shape,
        request.layout.transpose_method,
        0,
    );
    assert(transitions_given(
        world.transitions,
        prepared.stages@,
        route.distributed@,
        request.extra_shape,
        request.layout.transpose_method,
        0,
        exchanged,
    ));
    let exchanges: TransitionPlan = match settle(
        &world.agree,
        lift::<TransitionPlan, BackendInitError<MixedError>>(exchanged),
    ) {
        Ok(plan) => plan,
        Err(error) => {
            assert(mixed_c2c_unbuilt(*world, *planners, request, rooms, error));
            return Err(error);
        },
    };
    let lens = CommonLens {
        fft_scratch: prepared.fft_scratch_len,
        send: exchanges.send_len,
        receive: exchanges.receive_len,
    };
    let ghost plan = exchanges;
    let core = MixedC2cCore {
        id: facts.id,
        stages: prepared.stages,
        locals: prepared.locals,
        transitions: exchanges.transitions,
        registered_pencils,
        extra_shape: request.extra_shape,
        graph,
        layout: request.layout,
        descriptor,
        embedding_len: prepared.embedding_len,
        lens,
        strided_line_len: prepared.strided_line_len,
        strict_array_identity: request.transform.strict(),
    };
    assert(transitions_given(world.transitions, core.stages@, route.distributed@, request.extra_shape, request.layout.transpose_method, 0, Ok(plan)));
    assert(mixed_c2c_built_in(*world, *planners, *facts, request, rooms, core));
    Ok(core)
}

/// Builds a mixed complex plan. Whether there is room for its lists rests on the machine;
/// [`construct_mixed_c2c_in`] says what follows for each answer.
pub fn construct_mixed_c2c<H: Fn([u64; 5]) -> bool, D: Fn(Option<Vec<u64>>, Option<usize>) -> Result<Vec<u64>, FftError>, A: Fn(bool) -> bool, P: Fn([usize; N]) -> Result<Pencil<N, M>, FftError>, Q: Fn(Pencil<N, M>, [usize; N], bool) -> Result<RouteCandidate<N, M>, FftError>, T: Fn(&Vec<Stage<N, M>>, &Vec<usize>, &ExtraShape, TransposeMethod, usize) -> Result<TransitionPlan, FftError>, C: Fn(BackendChoice, usize, bool) -> Result<LocalC2cPlan, BackendInitError<LocalC2cError>>, K: Fn(BackendChoice, AxisR2rKind, usize) -> Result<LocalR2rPlan, BackendInitError<LocalR2rError>>, B: Fn(BackendChoice, usize) -> Result<LocalR2cPlan, BackendInitError<LocalR2cError>>, const N: usize, const M: usize>(
    world: &World<H, D, A, P, Q, T>,
    planners: &Planners<C, K, B>,
    facts: &MixedFacts<M>,
    request: PlanRequest<MixedAsk<N>, N, M>,
) -> (result: Result<MixedC2cCore<N, M>, BackendInitError<MixedError>>)
    requires
        N >= 1,
        world_answers(*world),
        planners_answer(*planners),
        facts.scalar_bytes == 4 || facts.scalar_bytes == 8,
        request.extra_shape.wf(),
    ensures
        match result {
            Ok(core) => {
                &&& core.wf()
                &&& core.id == facts.id
                &&& core.extra_shape == request.extra_shape
                &&& core.graph == request.transform.graph
                &&& core.layout == request.layout
                &&& core.strict_array_identity == request.transform.spec_strict()
                &&& core.embedding_len == largest_of(
                    core.locals@.map_values(
                        |local: MixedComplexLocal| local.spec_embedding_len(),
                    ),
                )
                &&& core.strided_line_len == largest_of(
                    strided_complex_lines(core.stages@, core.locals@),
                )
                &&& mixed_c2c_built(*world, *planners, *facts, request, core)
            },
            Err(error) => mixed_c2c_refused(*world, *planners, *facts, request, error),
        },
{
    let rooms: Rooms<N, M> = Rooms {
        words: descriptor_room(full_descriptor_len::<N, M>(&request.extra_shape)),
        stages: room_for(N),
        copies: None,
        dimensions: None,
        real_pencils: None,
        complex_pencils: room_for(N),
    };
    construct_mixed_c2c_in(rooms, world, planners, facts, request)
}

} // verus!
