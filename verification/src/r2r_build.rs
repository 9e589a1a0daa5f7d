//! How a real-to-real or Hartley plan is built.

use vstd::prelude::*;

use crate::error::FftError;
use crate::error::LocalR2rError;
use crate::error::R2rError;
use crate::graph::validate_kinds;
use crate::layout::Pencil;
use crate::layout::TransposeMethod;
use crate::layout::ExtraShape;
use crate::local::AxisR2rKind;
use crate::local::LocalR2rPlan;
use crate::local::R2rKind;
use crate::local::R2rLocal;
use crate::prepare::largest_of;
use crate::prepare::prepare_r2r_stages_in;
use crate::prepare::r2r_embedding;
use crate::prepare::r2r_scratch;
use crate::prepare::r2r_stage_at;
use crate::prepare::r2r_stages_before;
use crate::prepare::R2rStages;
use crate::prepare::RouteCandidate;
use crate::r2r::strided_r2r_line_len;
use crate::r2r::strided_r2r_lines;
use crate::r2r::unplaced_stage;
use crate::r2r::R2rCore;
use crate::registry::is_empty_room;
use crate::registry::room_for;
use crate::registry::Stage;
use crate::request::PlanRequest;
use crate::rooms::Rooms;
use crate::transition::TransitionPlan;
use crate::words::descriptor_len;
use crate::words::descriptor_room;
use crate::words::lemma_empty_front;
use crate::words::descriptor_words;
use crate::words::header_words;
use crate::words::kind_words;
use crate::words::mixed_header;
use crate::words::operation_word_of;
use crate::words::spec_descriptor_len;
use crate::words::word_for;
use crate::words::write_r2r_descriptor;
use crate::words::Operation;
use crate::words::PlanFamily;
use crate::workspace::CommonLens;
use crate::world::agree_words;
use crate::world::find_input;
use crate::world::input_given;
use crate::world::lift;
use crate::world::lifted;
use crate::world::settle;
use crate::world::settled;
use crate::world::words_agreed;
use crate::world::world_answers;
use crate::world::World;

verus! {

/// What is known of a plan before it is built, besides the request.
#[derive(Clone, Copy, Debug)]
pub struct R2rFacts<const N: usize, const M: usize> {
    /// Tells the plan from others.
    pub id: u64,
    /// The family of the plan.
    pub family: PlanFamily,
    /// The extents of the process grid.
    pub process_grid: [usize; M],
    /// The word of what the values are.
    pub value_kind: u64,
    /// Bytes of a scalar.
    pub scalar_bytes: usize,
    /// What is done along each axis.
    pub axis_kinds: [Option<AxisR2rKind>; N],
}

/// The words of a plan are agreed on, or not: an own descriptor is what describes the plan, and there
/// is one where room for it was granted.
pub open spec fn r2r_words_given<H: Fn([u64; 5]) -> bool, D: Fn(Option<Vec<u64>>, Option<usize>) -> Result<Vec<u64>, FftError>, A: Fn(bool) -> bool, P: Fn([usize; N]) -> Result<Pencil<N, M>, FftError>, Q: Fn(Pencil<N, M>, [usize; N], bool) -> Result<RouteCandidate<N, M>, FftError>, T: Fn(&Vec<Stage<N, M>>, &Vec<usize>, &ExtraShape, TransposeMethod, usize) -> Result<TransitionPlan, FftError>, const N: usize, const M: usize>(
    world: World<H, D, A, P, Q, T>,
    facts: R2rFacts<N, M>,
    request: PlanRequest<[Option<R2rKind>; N], N, M>,
    granted: bool,
    outcome: Result<Vec<u64>, FftError>,
) -> bool {
    exists|header: [u64; 5], own: Option<Vec<u64>>, len: Option<usize>|
        {
            &&& #[trigger] words_agreed(world.header, world.descriptor, header, own, len, outcome)
            &&& len == spec_descriptor_len(
                N as int,
                M as int,
                request.extra_shape.dimensions@.len() as int,
            )
            &&& operation_word_of(Operation::Plan { family: facts.family }) matches Some(word)
                && header@ == header_words(word, N as int, M as int, len)
            &&& own is Some <==> granted
            &&& own is Some ==> own->0@ == descriptor_words(
                request.global_shape@,
                facts.process_grid@,
                request.extra_shape.dimensions@,
                facts.value_kind,
                facts.scalar_bytes,
                kind_words(facts.axis_kinds),
                request.layout,
            )
        }
}

fn agree_r2r_words<H: Fn([u64; 5]) -> bool, D: Fn(Option<Vec<u64>>, Option<usize>) -> Result<Vec<u64>, FftError>, A: Fn(bool) -> bool, P: Fn([usize; N]) -> Result<Pencil<N, M>, FftError>, Q: Fn(Pencil<N, M>, [usize; N], bool) -> Result<RouteCandidate<N, M>, FftError>, T: Fn(&Vec<Stage<N, M>>, &Vec<usize>, &ExtraShape, TransposeMethod, usize) -> Result<TransitionPlan, FftError>, const N: usize, const M: usize>(
    room: Option<Vec<u64>>,
    world: &World<H, D, A, P, Q, T>,
    facts: &R2rFacts<N, M>,
    request: &PlanRequest<[Option<R2rKind>; N], N, M>,
) -> (outcome: Result<Vec<u64>, FftError>)
    requires
        is_empty_room(room),
        world_answers(*world),
    ensures
        r2r_words_given(*world, *facts, *request, room is Some, outcome),
{
    let len: Option<usize> = descriptor_len::<N, M>(&request.extra_shape);
    let own: Option<Vec<u64>> = write_r2r_descriptor(
        room,
        &facts.process_grid,
        &request.global_shape,
        &request.extra_shape,
        &facts.axis_kinds,
        facts.value_kind,
        facts.scalar_bytes,
        request.layout,
    );
    proof {
        if room is Some {
            lemma_empty_front(
                room->0@,
                descriptor_words(
                    request.global_shape@,
                    facts.process_grid@,
                    request.extra_shape.dimensions@,
                    facts.value_kind,
                    facts.scalar_bytes,
                    kind_words(facts.axis_kinds),
                    request.layout,
                ),
            );
        }
    }
    let header: [u64; 5] = mixed_header::<N, M>(
        word_for(Operation::Plan { family: facts.family }),
        len,
    );
    agree_words(&world.header, &world.descriptor, header, own, len)
}

/// The outcome of preparing stages along a route, where room for them was granted or not.
pub open spec fn r2r_stages_given<K: Fn(AxisR2rKind, usize) -> Result<LocalR2rPlan, LocalR2rError>, const N: usize, const M: usize>(
    planner: K,
    route: RouteCandidate<N, M>,
    shape: Seq<usize>,
    kinds: Seq<Option<AxisR2rKind>>,
    granted: bool,
    outcome: Result<R2rStages<N, M>, R2rError>,
) -> bool {
    if route.stages@.len() != N {
        outcome == Err::<R2rStages<N, M>, R2rError>(R2rError::Fft(FftError::PreparationFailed))
    } else if !granted {
        outcome == Err::<R2rStages<N, M>, R2rError>(
            R2rError::Fft(FftError::AllocationFailed { required: N }),
        )
    } else {
        match outcome {
            Ok(prepared) => {
                &&& r2r_stages_hold(
                    planner,
                    route.stages@,
                    shape,
                    kinds,
                    prepared.stages@,
                    prepared.locals@,
                )
                &&& prepared.embedding_len == largest_of(
                    prepared.locals@.map_values(|local: R2rLocal| r2r_embedding(local)),
                )
                &&& prepared.fft_scratch_len == largest_of(
                    prepared.locals@.map_values(|local: R2rLocal| r2r_scratch(local)),
                )
            },
            Err(error) => exists|i: int|
                0 <= i < N && #[trigger] r2r_stage_at(
                    planner,
                    route.stages@,
                    shape,
                    kinds,
                    i,
                    Err(error),
                ) && r2r_stages_before(planner, route.stages@, shape, kinds, i),
        }
    }
}

/// Stage `i` transforms axis `N - 1 - i` where it lies, with the kernel that the planner gave.
pub open spec fn r2r_stages_hold<K: Fn(AxisR2rKind, usize) -> Result<LocalR2rPlan, LocalR2rError>, const N: usize, const M: usize>(
    planner: K,
    pencils: Seq<Pencil<N, M>>,
    shape: Seq<usize>,
    kinds: Seq<Option<AxisR2rKind>>,
    stages: Seq<Stage<N, M>>,
    locals: Seq<R2rLocal>,
) -> bool {
    &&& stages.len() == N
    &&& locals.len() == N
    &&& forall|i: int|
        0 <= i < N ==> {
            &&& (#[trigger] stages[i]).axis == N - 1 - i
            &&& stages[i].input == pencils[i]
            &&& stages[i].output == pencils[i]
        }
    &&& forall|i: int|
        0 <= i < N ==> r2r_stage_at(planner, pencils, shape, kinds, i, Ok(#[trigger] locals[i]))
}

/// The exchanges of a plan come from the question that was asked for them: between which stages, for
/// which extra dimensions, and by which method.
pub open spec fn transitions_given<T: Fn(&Vec<Stage<N, M>>, &Vec<usize>, &ExtraShape, TransposeMethod, usize) -> Result<TransitionPlan, FftError>, const N: usize, const M: usize>(
    question: T,
    stages: Seq<Stage<N, M>>,
    distributed: Seq<usize>,
    extra_shape: ExtraShape,
    method: TransposeMethod,
    boundary: usize,
    outcome: Result<TransitionPlan, FftError>,
) -> bool {
    exists|asked: &Vec<Stage<N, M>>, over: &Vec<usize>|
        {
            &&& asked@ == stages
            &&& over@ == distributed
            &&& #[trigger] question.ensures(
                (asked, over, &extra_shape, method, boundary),
                outcome,
            )
        }
}

/// A plan that was built in `rooms`: all questions were answered, and the plan holds the answers.
pub open spec fn r2r_built_in<H: Fn([u64; 5]) -> bool, D: Fn(Option<Vec<u64>>, Option<usize>) -> Result<Vec<u64>, FftError>, A: Fn(bool) -> bool, P: Fn([usize; N]) -> Result<Pencil<N, M>, FftError>, Q: Fn(Pencil<N, M>, [usize; N], bool) -> Result<RouteCandidate<N, M>, FftError>, T: Fn(&Vec<Stage<N, M>>, &Vec<usize>, &ExtraShape, TransposeMethod, usize) -> Result<TransitionPlan, FftError>, K: Fn(AxisR2rKind, usize) -> Result<LocalR2rPlan, LocalR2rError>, const N: usize, const M: usize>(
    world: World<H, D, A, P, Q, T>,
    planner: K,
    facts: R2rFacts<N, M>,
    request: PlanRequest<[Option<R2rKind>; N], N, M>,
    rooms: Rooms<N, M>,
    core: R2rCore<N, M>,
) -> bool {
    exists|input: Pencil<N, M>, route: RouteCandidate<N, M>, exchanges: TransitionPlan|
        {
            &&& r2r_words_given(world, facts, request, rooms.words is Some, Ok(core.descriptor))
            &&& input_given(world.pencil, request, Ok(input))
            &&& kinds_given(request, Ok(()))
            &&& #[trigger] world.route.ensures(
                (input, request.global_shape, request.layout.permute_dims),
                Ok(route),
            )
            &&& rooms.stages is Some
            &&& route.stages@.len() == N
            &&& r2r_stages_hold(
                planner,
                route.stages@,
                request.global_shape@,
                facts.axis_kinds@,
                core.stages@,
                core.locals@,
            )
            &&& #[trigger] transitions_given(
                world.transitions,
                core.stages@,
                route.distributed@,
                request.extra_shape,
                request.layout.transpose_method,
                0,
                Ok(exchanges),
            )
            &&& core.transitions == exchanges.transitions
            &&& core.lens == CommonLens {
                fft_scratch: largest_of(
                    core.locals@.map_values(|local: R2rLocal| r2r_scratch(local)),
                ),
                send: exchanges.send_len,
                receive: exchanges.receive_len,
            }
        }
}

/// A route from the layout that the plan starts from, once the kinds fit the extents.
pub open spec fn r2r_routed<H: Fn([u64; 5]) -> bool, D: Fn(Option<Vec<u64>>, Option<usize>) -> Result<Vec<u64>, FftError>, A: Fn(bool) -> bool, P: Fn([usize; N]) -> Result<Pencil<N, M>, FftError>, Q: Fn(Pencil<N, M>, [usize; N], bool) -> Result<RouteCandidate<N, M>, FftError>, T: Fn(&Vec<Stage<N, M>>, &Vec<usize>, &ExtraShape, TransposeMethod, usize) -> Result<TransitionPlan, FftError>, const N: usize, const M: usize>(
    world: World<H, D, A, P, Q, T>,
    request: PlanRequest<[Option<R2rKind>; N], N, M>,
    local: Result<RouteCandidate<N, M>, FftError>,
) -> bool {
    exists|input: Pencil<N, M>|
        {
            &&& input_given(world.pencil, request, Ok(input))
            &&& kinds_given(request, Ok(()))
            &&& #[trigger] world.route.ensures(
                (input, request.global_shape, request.layout.permute_dims),
                local,
            )
        }
}

/// The stages along such a route.
pub open spec fn r2r_staged<H: Fn([u64; 5]) -> bool, D: Fn(Option<Vec<u64>>, Option<usize>) -> Result<Vec<u64>, FftError>, A: Fn(bool) -> bool, P: Fn([usize; N]) -> Result<Pencil<N, M>, FftError>, Q: Fn(Pencil<N, M>, [usize; N], bool) -> Result<RouteCandidate<N, M>, FftError>, T: Fn(&Vec<Stage<N, M>>, &Vec<usize>, &ExtraShape, TransposeMethod, usize) -> Result<TransitionPlan, FftError>, K: Fn(AxisR2rKind, usize) -> Result<LocalR2rPlan, LocalR2rError>, const N: usize, const M: usize>(
    world: World<H, D, A, P, Q, T>,
    planner: K,
    facts: R2rFacts<N, M>,
    request: PlanRequest<[Option<R2rKind>; N], N, M>,
    route: RouteCandidate<N, M>,
    granted: bool,
    local: Result<R2rStages<N, M>, R2rError>,
) -> bool {
    &&& r2r_routed(world, request, Ok(route))
    &&& r2r_stages_given(planner, route, request.global_shape@, facts.axis_kinds@, granted, local)
}

/// Why a plan whose words are agreed on was not built in `rooms`: the first question that failed, or
/// that another process could not answer.
pub open spec fn r2r_unbuilt<H: Fn([u64; 5]) -> bool, D: Fn(Option<Vec<u64>>, Option<usize>) -> Result<Vec<u64>, FftError>, A: Fn(bool) -> bool, P: Fn([usize; N]) -> Result<Pencil<N, M>, FftError>, Q: Fn(Pencil<N, M>, [usize; N], bool) -> Result<RouteCandidate<N, M>, FftError>, T: Fn(&Vec<Stage<N, M>>, &Vec<usize>, &ExtraShape, TransposeMethod, usize) -> Result<TransitionPlan, FftError>, K: Fn(AxisR2rKind, usize) -> Result<LocalR2rPlan, LocalR2rError>, const N: usize, const M: usize>(
    world: World<H, D, A, P, Q, T>,
    planner: K,
    facts: R2rFacts<N, M>,
    request: PlanRequest<[Option<R2rKind>; N], N, M>,
    rooms: Rooms<N, M>,
    error: R2rError,
) -> bool {
    ||| exists|local: Result<Pencil<N, M>, FftError>| #[trigger]
        input_given(world.pencil, request, local) && settled::<Pencil<N, M>, R2rError, A>(
            world.agree,
            lifted(local),
            Err(error),
        )
    ||| exists|input: Pencil<N, M>, local: Result<(), R2rError>|
        {
            &&& #[trigger] input_given(world.pencil, request, Ok(input))
            &&& #[trigger] kinds_given(request, local)
            &&& settled::<(), R2rError, A>(world.agree, local, Err(error))
        }
    ||| exists|local: Result<RouteCandidate<N, M>, FftError>| #[trigger]
        r2r_routed(world, request, local) && settled::<RouteCandidate<N, M>, R2rError, A>(
            world.agree,
            lifted(local),
            Err(error),
        )
    ||| exists|route: RouteCandidate<N, M>, local: Result<R2rStages<N, M>, R2rError>| #[trigger]
        r2r_staged(world, planner, facts, request, route, rooms.stages is Some, local) && settled::<
            R2rStages<N, M>,
            R2rError,
            A,
        >(world.agree, local, Err(error))
    ||| exists|route: RouteCandidate<N, M>, prepared: R2rStages<N, M>|
        #![trigger r2r_staged(world, planner, facts, request, route, rooms.stages is Some, Ok(prepared))]
        {
            &&& r2r_staged(
                world,
                planner,
                facts,
                request,
                route,
                rooms.stages is Some,
                Ok(prepared),
            )
            &&& r2r_unjoined(world, request, route, prepared, error)
        }
}

/// Why the stages of a plan could not be joined by exchanges, or their lines not be placed.
pub open spec fn r2r_unjoined<H: Fn([u64; 5]) -> bool, D: Fn(Option<Vec<u64>>, Option<usize>) -> Result<Vec<u64>, FftError>, A: Fn(bool) -> bool, P: Fn([usize; N]) -> Result<Pencil<N, M>, FftError>, Q: Fn(Pencil<N, M>, [usize; N], bool) -> Result<RouteCandidate<N, M>, FftError>, T: Fn(&Vec<Stage<N, M>>, &Vec<usize>, &ExtraShape, TransposeMethod, usize) -> Result<TransitionPlan, FftError>, const N: usize, const M: usize>(
    world: World<H, D, A, P, Q, T>,
    request: PlanRequest<[Option<R2rKind>; N], N, M>,
    route: RouteCandidate<N, M>,
    prepared: R2rStages<N, M>,
    error: R2rError,
) -> bool {
    ||| exists|fault: FftError|
        {
            &&& #[trigger] transitions_given(
                world.transitions,
                prepared.stages@,
                route.distributed@,
                request.extra_shape,
                request.layout.transpose_method,
                0,
                Err(fault),
            )
            &&& error == R2rError::Fft(fault)
        }
    ||| exists|exchanges: TransitionPlan|
        {
            &&& #[trigger] transitions_given(
                world.transitions,
                prepared.stages@,
                route.distributed@,
                request.extra_shape,
                request.layout.transpose_method,
                0,
                Ok(exchanges),
            )
            &&& error == R2rError::Fft(FftError::PreparationFailed)
            &&& exists|i: int|
                0 <= i < N && #[trigger] unplaced_stage(prepared.stages@, prepared.locals@, i)
        }
}

/// Why a plan was not built in `rooms`.
pub open spec fn r2r_refused_in<H: Fn([u64; 5]) -> bool, D: Fn(Option<Vec<u64>>, Option<usize>) -> Result<Vec<u64>, FftError>, A: Fn(bool) -> bool, P: Fn([usize; N]) -> Result<Pencil<N, M>, FftError>, Q: Fn(Pencil<N, M>, [usize; N], bool) -> Result<RouteCandidate<N, M>, FftError>, T: Fn(&Vec<Stage<N, M>>, &Vec<usize>, &ExtraShape, TransposeMethod, usize) -> Result<TransitionPlan, FftError>, K: Fn(AxisR2rKind, usize) -> Result<LocalR2rPlan, LocalR2rError>, const N: usize, const M: usize>(
    world: World<H, D, A, P, Q, T>,
    planner: K,
    facts: R2rFacts<N, M>,
    request: PlanRequest<[Option<R2rKind>; N], N, M>,
    rooms: Rooms<N, M>,
    error: R2rError,
) -> bool {
    ||| exists|fault: FftError| #[trigger]
        r2r_words_given(world, facts, request, rooms.words is Some, Err(fault)) && error
            == R2rError::Fft(fault)
    ||| exists|words: Vec<u64>| #[trigger]
        r2r_words_given(world, facts, request, rooms.words is Some, Ok(words)) && r2r_unbuilt(
            world,
            planner,
            facts,
            request,
            rooms,
            error,
        )
}

/// A plan that was built in whatever rooms there were.
pub open spec fn r2r_built<H: Fn([u64; 5]) -> bool, D: Fn(Option<Vec<u64>>, Option<usize>) -> Result<Vec<u64>, FftError>, A: Fn(bool) -> bool, P: Fn([usize; N]) -> Result<Pencil<N, M>, FftError>, Q: Fn(Pencil<N, M>, [usize; N], bool) -> Result<RouteCandidate<N, M>, FftError>, T: Fn(&Vec<Stage<N, M>>, &Vec<usize>, &ExtraShape, TransposeMethod, usize) -> Result<TransitionPlan, FftError>, K: Fn(AxisR2rKind, usize) -> Result<LocalR2rPlan, LocalR2rError>, const N: usize, const M: usize>(
    world: World<H, D, A, P, Q, T>,
    planner: K,
    facts: R2rFacts<N, M>,
    request: PlanRequest<[Option<R2rKind>; N], N, M>,
    core: R2rCore<N, M>,
) -> bool {
    exists|rooms: Rooms<N, M>| #[trigger]
        r2r_built_in(world, planner, facts, request, rooms, core)
}

/// Why a plan was not built in whatever rooms there were.
pub open spec fn r2r_refused<H: Fn([u64; 5]) -> bool, D: Fn(Option<Vec<u64>>, Option<usize>) -> Result<Vec<u64>, FftError>, A: Fn(bool) -> bool, P: Fn([usize; N]) -> Result<Pencil<N, M>, FftError>, Q: Fn(Pencil<N, M>, [usize; N], bool) -> Result<RouteCandidate<N, M>, FftError>, T: Fn(&Vec<Stage<N, M>>, &Vec<usize>, &ExtraShape, TransposeMethod, usize) -> Result<TransitionPlan, FftError>, K: Fn(AxisR2rKind, usize) -> Result<LocalR2rPlan, LocalR2rError>, const N: usize, const M: usize>(
    world: World<H, D, A, P, Q, T>,
    planner: K,
    facts: R2rFacts<N, M>,
    request: PlanRequest<[Option<R2rKind>; N], N, M>,
    error: R2rError,
) -> bool {
    exists|rooms: Rooms<N, M>| #[trigger]
        r2r_refused_in(world, planner, facts, request, rooms, error)
}

/// What the check of the kinds against the extents comes to.
pub open spec fn kinds_given<const N: usize, const M: usize>(
    request: PlanRequest<[Option<R2rKind>; N], N, M>,
    outcome: Result<(), R2rError>,
) -> bool {
    if exists|axis: int|
        0 <= axis < N && #[trigger] request.transform@[axis] == Some(R2rKind::DctI)
            && request.global_shape@[axis] == 1 {
        outcome == Err::<(), R2rError>(R2rError::LocalR2r(LocalR2rError::InvalidLength))
    } else {
        outcome is Ok
    }
}

/// Builds a real-to-real or Hartley plan in `rooms`. The questions are asked in this order: header,
/// descriptor, input layout, kinds, route, stages, exchanges.
pub fn construct_core_in<H: Fn([u64; 5]) -> bool, D: Fn(Option<Vec<u64>>, Option<usize>) -> Result<Vec<u64>, FftError>, A: Fn(bool) -> bool, P: Fn([usize; N]) -> Result<Pencil<N, M>, FftError>, Q: Fn(Pencil<N, M>, [usize; N], bool) -> Result<RouteCandidate<N, M>, FftError>, T: Fn(&Vec<Stage<N, M>>, &Vec<usize>, &ExtraShape, TransposeMethod, usize) -> Result<TransitionPlan, FftError>, K: Fn(AxisR2rKind, usize) -> Result<LocalR2rPlan, LocalR2rError>, const N: usize, const M: usize>(
    rooms: Rooms<N, M>,
    world: &World<H, D, A, P, Q, T>,
    planner: &K,
    facts: &R2rFacts<N, M>,
    request: PlanRequest<[Option<R2rKind>; N], N, M>,
) -> (result: Result<R2rCore<N, M>, R2rError>)
    requires
        rooms.wf(),
        N >= 2,
        world_answers(*world),
        forall|asked: AxisR2rKind, n: usize| #[trigger] planner.requires((asked, n)),
        request.extra_shape.wf(),
    ensures
        match result {
            Ok(core) => {
                &&& core.wf()
                &&& core.id == facts.id
                &&& core.extra_shape == request.extra_shape
                &&& core.kinds == request.transform
                &&& core.layout == request.layout
                &&& core.embedding_len == largest_of(
                    core.locals@.map_values(|local: R2rLocal| r2r_embedding(local)),
                )
                &&& core.strided_line_len == largest_of(
                    strided_r2r_lines(core.stages@, core.locals@),
                )
                &&& r2r_built_in(*world, *planner, *facts, request, rooms, core)
            },
            Err(error) => r2r_refused_in(
                *world,
                *planner,
                *facts,
                request,
                rooms,
                error,
            ),
        },
{
    let descriptor: Vec<u64> = match agree_r2r_words(rooms.words, world, facts, &request) {
        Ok(words) => words,
        Err(fault) => {
            return Err(R2rError::Fft(fault));
        },
    };
    assert(r2r_words_given(*world, *facts, request, rooms.words is Some, Ok(descriptor)));
    let found = find_input(&world.pencil, &request);
    let input: Pencil<N, M> = match settle(&world.agree, lift::<Pencil<N, M>, R2rError>(found)) {
        Ok(input) => input,
        Err(error) => {
            return Err(error);
        },
    };
    let kinds = validate_kinds(request.global_shape, request.transform);
    assert(kinds_given(request, kinds));
    match settle(&world.agree, kinds) {
        Ok(_) => {},
        Err(error) => {
            return Err(error);
        },
    }
    let question = &world.route;
    let routed = question(input, request.global_shape, request.layout.permute_dims);
    assert(r2r_routed(*world, request, routed));
    let route: RouteCandidate<N, M> = match settle(
        &world.agree,
        lift::<RouteCandidate<N, M>, R2rError>(routed),
    ) {
        Ok(route) => route,
        Err(error) => {
            return Err(error);
        },
    };
    assert(r2r_routed(*world, request, Ok(route)));
    let planned = prepare_r2r_stages_in(
        rooms.stages,
        planner,
        &route,
        &request.global_shape,
        &facts.axis_kinds,
    );
    assert(r2r_staged(
        *world,
        *planner,
        *facts,
        request,
        route,
        rooms.stages is Some,
        planned,
    ));
    let prepared: R2rStages<N, M> = match settle(&world.agree, planned) {
        Ok(prepared) => prepared,
        Err(error) => {
            return Err(error);
        },
    };
    assert(r2r_staged(
        *world,
        *planner,
        *facts,
        request,
        route,
        rooms.stages is Some,
        Ok(prepared),
    ));
    let question = &world.transitions;
    let exchanged = question(
        &prepared.stages,
        &route.distributed,
        &request.extra_shape,
        request.layout.transpose_method,
        0,
    );
    assert(transitions_given(
        world.transitions,
        prepared.stages@,
        route.distributed@,
        request.extra_shape,
        request.layout.transpose_method,
        0,
        exchanged,
    ));
    let exchanges: TransitionPlan = match exchanged {
        Ok(plan) => plan,
        Err(fault) => {
            return Err(R2rError::Fft(fault));
        },
    };
    let strided_line_len: usize = match strided_r2r_line_len(&prepared.stages, &prepared.locals) {
        Ok(len) => len,
        Err(error) => {
            return Err(error);
        },
    };
    let lens = CommonLens {
        fft_scratch: prepared.fft_scratch_len,
        send: exchanges.send_len,
        receive: exchanges.receive_len,
    };
    let ghost plan = exchanges;
    let core = R2rCore {
        id: facts.id,
        stages: prepared.stages,
        locals: prepared.locals,
        transitions: exchanges.transitions,
        extra_shape: request.extra_shape,
        kinds: request.transform,
        descriptor,
        layout: request.layout,
        embedding_len: prepared.embedding_len,
        lens,
        strided_line_len,
    };
    assert(transitions_given(world.transitions, core.stages@, route.distributed@, request.extra_shape, request.layout.transpose_method, 0, Ok(plan)));
    assert(r2r_built_in(*world, *planner, *facts, request, rooms, core));
    Ok(core)
}

/// Builds a real-to-real or Hartley plan. Whether there is room for its lists rests on the machine;
/// [`construct_core_in`] says what follows for each answer.
pub fn construct_core<H: Fn([u64; 5]) -> bool, D: Fn(Option<Vec<u64>>, Option<usize>) -> Result<Vec<u64>, FftError>, A: Fn(bool) -> bool, P: Fn([usize; N]) -> Result<Pencil<N, M>, FftError>, Q: Fn(Pencil<N, M>, [usize; N], bool) -> Result<RouteCandidate<N, M>, FftError>, T: Fn(&Vec<Stage<N, M>>, &Vec<usize>, &ExtraShape, TransposeMethod, usize) -> Result<TransitionPlan, FftError>, K: Fn(AxisR2rKind, usize) -> Result<LocalR2rPlan, LocalR2rError>, const N: usize, const M: usize>(
    world: &World<H, D, A, P, Q, T>,
    planner: &K,
    facts: &R2rFacts<N, M>,
    request: PlanRequest<[Option<R2rKind>; N], N, M>,
) -> (result: Result<R2rCore<N, M>, R2rError>)
    requires
        N >= 2,
        world_answers(*world),
        forall|asked: AxisR2rKind, n: usize| #[trigger] planner.requires((asked, n)),
        request.extra_shape.wf(),
    ensures
        match result {
            Ok(core) => {
                &&& core.wf()
                &&& core.id == facts.id
                &&& core.extra_shape == request.extra_shape
                &&& core.kinds == request.transform
                &&& core.layout == request.layout
                &&& core.embedding_len == largest_of(
                    core.locals@.map_values(|local: R2rLocal| r2r_embedding(local)),
                )
                &&& core.strided_line_len == largest_of(
                    strided_r2r_lines(core.stages@, core.locals@),
                )
                &&& r2r_built(*world, *planner, *facts, request, core)
            },
            Err(error) => r2r_refused(*world, *planner, *facts, request, error),
        },
{
    let rooms: Rooms<N, M> = Rooms {
        words: descriptor_room(descriptor_len::<N, M>(&request.extra_shape)),
        stages: room_for(N),
        copies: None,
        dimensions: None,
        real_pencils: None,
        complex_pencils: None,
    };
    construct_core_in(rooms, world, planner, facts, request)
}

} // verus!
