//! The stages of a mixed plan, with the kernels that the planners of its backend give for them.

use vstd::prelude::*;

use crate::error::BackendInitError;
use crate::error::FftError;
use crate::error::LocalC2cError;
use crate::error::LocalR2cError;
use crate::error::LocalR2rError;
use crate::error::MixedError;
use crate::graph::axis_is_local;
use crate::graph::stage_axis_local;
use crate::layout::memory_stride;
use crate::layout::FourierDirection;
use crate::layout::FourierDirections;
use crate::layout::Pencil;
use crate::local::local_line_len_complex;
use crate::local::local_line_len_real;
use crate::local::mixed_c2c_local;
use crate::local::mixed_r2c_local;
use crate::local::mixed_r2r_local;
use crate::local::spec_mixed_c2c_local;
use crate::local::spec_mixed_r2c_local;
use crate::local::spec_mixed_r2r_local;
use crate::local::AxisR2rKind;
use crate::local::AxisTransform;
use crate::local::BackendChoice;
use crate::local::LocalC2cPlan;
use crate::local::LocalR2cPlan;
use crate::local::LocalR2rPlan;
use crate::local::MixedComplexLocal;
use crate::local::MixedR2cStageLocal;
use crate::local::MixedRealLocal;
use crate::prepare::largest_of;
use crate::prepare::lemma_largest_map_push;
use crate::prepare::lemma_largest_push;
use crate::prepare::RouteCandidate;
use crate::prepare::RoutePair;
use crate::registry::is_empty_room;
use crate::registry::room_for;
use crate::registry::stages_wf;
use crate::registry::Stage;
use crate::sweep::max_len;

verus! {

/// The planners of local kernels. Each is told the backend and the length of a line; a complex
/// kernel also which sign it has, a real-to-real kernel of which kind it is.
#[derive(Debug)]
pub struct Planners<C, K, B> {
    /// Plans complex kernels; `true` asks for the backward sign.
    pub c2c: C,
    /// Plans real-to-real kernels.
    pub r2r: K,
    /// Plans the real-to-complex boundary.
    pub r2c: B,
}

/// The planners can be asked for every kernel.
pub open spec fn planners_answer<C: Fn(BackendChoice, usize, bool) -> Result<LocalC2cPlan, BackendInitError<LocalC2cError>>, K: Fn(BackendChoice, AxisR2rKind, usize) -> Result<LocalR2rPlan, BackendInitError<LocalR2rError>>, B: Fn(BackendChoice, usize) -> Result<LocalR2cPlan, BackendInitError<LocalR2cError>>>(
    planners: Planners<C, K, B>,
) -> bool {
    &&& forall|backend: BackendChoice, len: usize, backward: bool| #[trigger]
        planners.c2c.requires((backend, len, backward))
    &&& forall|backend: BackendChoice, kind: AxisR2rKind, len: usize| #[trigger]
        planners.r2r.requires((backend, kind, len))
    &&& forall|backend: BackendChoice, len: usize| #[trigger] planners.r2c.requires((backend, len))
}

/// What a planner's answer is for a real-to-real kernel of kind `kind`.
pub open spec fn r2r_planned<C, K: Fn(BackendChoice, AxisR2rKind, usize) -> Result<LocalR2rPlan, BackendInitError<LocalR2rError>>, B>(
    planners: Planners<C, K, B>,
    backend: BackendChoice,
    kind: AxisR2rKind,
    len: usize,
    planned: Result<LocalR2rPlan, BackendInitError<LocalR2rError>>,
) -> bool {
    planners.r2r.ensures((backend, kind, len), planned)
}

/// What a planner's answer is for a complex kernel.
pub open spec fn c2c_planned<C: Fn(BackendChoice, usize, bool) -> Result<LocalC2cPlan, BackendInitError<LocalC2cError>>, K, B>(
    planners: Planners<C, K, B>,
    backend: BackendChoice,
    len: usize,
    backward: bool,
    planned: Result<LocalC2cPlan, BackendInitError<LocalC2cError>>,
) -> bool {
    planners.c2c.ensures((backend, len, backward), planned)
}

/// What a planner's answer is for the boundary.
pub open spec fn r2c_planned<C, K, B: Fn(BackendChoice, usize) -> Result<LocalR2cPlan, BackendInitError<LocalR2cError>>>(
    planners: Planners<C, K, B>,
    backend: BackendChoice,
    len: usize,
    planned: Result<LocalR2cPlan, BackendInitError<LocalR2cError>>,
) -> bool {
    planners.r2c.ensures((backend, len), planned)
}

/// What the kernel of a complex mixed stage comes to.
pub open spec fn complex_local_given<C: Fn(BackendChoice, usize, bool) -> Result<LocalC2cPlan, BackendInitError<LocalC2cError>>, K: Fn(BackendChoice, AxisR2rKind, usize) -> Result<LocalR2rPlan, BackendInitError<LocalR2rError>>, B>(
    planners: Planners<C, K, B>,
    backend: BackendChoice,
    transform: AxisTransform,
    len: usize,
    backward: bool,
    outcome: Result<MixedComplexLocal, BackendInitError<MixedError>>,
) -> bool {
    match transform {
        AxisTransform::Unchanged => outcome == Ok::<
            MixedComplexLocal,
            BackendInitError<MixedError>,
        >(MixedComplexLocal::Identity),
        AxisTransform::Rfft => outcome == Err::<MixedComplexLocal, BackendInitError<MixedError>>(
            BackendInitError::Local(MixedError::InvalidGraph),
        ),
        AxisTransform::Fft => exists|planned: Result<LocalC2cPlan, BackendInitError<LocalC2cError>>|
            {
                &&& #[trigger] c2c_planned(planners, backend, len, backward, planned)
                &&& outcome == match spec_mixed_c2c_local(planned) {
                    Ok(plan) => Ok::<MixedComplexLocal, BackendInitError<MixedError>>(
                        MixedComplexLocal::Fft(plan),
                    ),
                    Err(error) => Err(error),
                }
            },
        AxisTransform::R2r(kind) => exists|
            planned: Result<LocalR2rPlan, BackendInitError<LocalR2rError>>,
        |
            {
                &&& #[trigger] r2r_planned(planners, backend, kind, len, planned)
                &&& outcome == match spec_mixed_r2r_local(kind, planned) {
                    Ok(plan) => Ok::<MixedComplexLocal, BackendInitError<MixedError>>(
                        MixedComplexLocal::R2r(plan),
                    ),
                    Err(error) => Err(error),
                }
            },
    }
}

/// Prepares the kernel of a complex mixed stage.
fn complex_local<C: Fn(BackendChoice, usize, bool) -> Result<LocalC2cPlan, BackendInitError<LocalC2cError>>, K: Fn(BackendChoice, AxisR2rKind, usize) -> Result<LocalR2rPlan, BackendInitError<LocalR2rError>>, B: Fn(BackendChoice, usize) -> Result<LocalR2cPlan, BackendInitError<LocalR2cError>>>(
    planners: &Planners<C, K, B>,
    backend: BackendChoice,
    transform: AxisTransform,
    len: usize,
    backward: bool,
) -> (result: Result<MixedComplexLocal, BackendInitError<MixedError>>)
    requires
        planners_answer(*planners),
    ensures
        complex_local_given(*planners, backend, transform, len, backward, result),
{
    match transform {
        AxisTransform::Unchanged => Ok(MixedComplexLocal::Identity),
        AxisTransform::Rfft => Err(BackendInitError::Local(MixedError::InvalidGraph)),
        AxisTransform::Fft => {
            let planner = &planners.c2c;
            let planned = planner(backend, len, backward);
            assert(c2c_planned(*planners, backend, len, backward, planned));
            match mixed_c2c_local(planned) {
                Ok(plan) => Ok(MixedComplexLocal::Fft(plan)),
                Err(error) => Err(error),
            }
        },
        AxisTransform::R2r(kind) => {
            let planner = &planners.r2r;
            let planned = planner(backend, kind, len);
            assert(r2r_planned(*planners, backend, kind, len, planned));
            match mixed_r2r_local(kind, planned) {
                Ok(plan) => Ok(MixedComplexLocal::R2r(plan)),
                Err(error) => Err(error),
            }
        },
    }
}

/// The error of a stage whose layout does not hold its axis in one piece.
pub open spec fn preparation_failed() -> BackendInitError<MixedError> {
    BackendInitError::Local(MixedError::Fft(FftError::PreparationFailed))
}

/// What preparing stage `index` of a mixed complex plan comes to.
pub open spec fn mixed_c2c_stage_at<C: Fn(BackendChoice, usize, bool) -> Result<LocalC2cPlan, BackendInitError<LocalC2cError>>, K: Fn(BackendChoice, AxisR2rKind, usize) -> Result<LocalR2rPlan, BackendInitError<LocalR2rError>>, B, const N: usize, const M: usize>(
    planners: Planners<C, K, B>,
    pencils: Seq<Pencil<N, M>>,
    shape: Seq<usize>,
    graph: MixedGraph<N>,
    index: int,
    outcome: Result<MixedComplexLocal, BackendInitError<MixedError>>,
) -> bool {
    let axis = N - 1 - index;
    if !axis_is_local(pencils[index], axis, shape[axis] as int) {
        outcome == Err::<MixedComplexLocal, BackendInitError<MixedError>>(preparation_failed())
    } else {
        exists|local: Result<MixedComplexLocal, BackendInitError<MixedError>>|
            {
                &&& #[trigger] complex_local_given(
                    planners,
                    graph.backend,
                    graph.transforms@[axis],
                    shape[axis],
                    graph.backward(axis),
                    local,
                )
                &&& if local is Ok && pencils[index].stride_along(axis) is None {
                    outcome == Err::<MixedComplexLocal, BackendInitError<MixedError>>(
                        preparation_failed(),
                    )
                } else {
                    outcome == local
                }
            }
    }
}

/// What a mixed plan does along each axis, and with which kernels.
#[derive(Clone, Copy, Debug)]
pub struct MixedGraph<const N: usize> {
    /// The transform of each axis.
    pub transforms: [AxisTransform; N],
    /// The sign of each complex transform.
    pub directions: FourierDirections<N>,
    /// Where the kernels come from.
    pub backend: BackendChoice,
}

impl<const N: usize> MixedGraph<N> {
    /// The transform of `axis` has the backward sign.
    pub open spec fn backward(&self, axis: int) -> bool {
        self.directions.spec_get(axis) == Some(FourierDirection::Backward)
    }

    /// Tells whether the transform of `axis` has the backward sign.
    fn is_backward(&self, axis: usize) -> (backward: bool)
        ensures
            backward == self.backward(axis as int),
    {
        match self.directions.get(axis) {
            Some(FourierDirection::Backward) => true,
            _ => false,
        }
    }
}

/// The stages before `index` of a mixed complex plan can be prepared.
pub open spec fn mixed_c2c_stages_before<C: Fn(BackendChoice, usize, bool) -> Result<LocalC2cPlan, BackendInitError<LocalC2cError>>, K: Fn(BackendChoice, AxisR2rKind, usize) -> Result<LocalR2rPlan, BackendInitError<LocalR2rError>>, B, const N: usize, const M: usize>(
    planners: Planners<C, K, B>,
    pencils: Seq<Pencil<N, M>>,
    shape: Seq<usize>,
    graph: MixedGraph<N>,
    index: int,
) -> bool {
    exists|locals: Seq<MixedComplexLocal>|
        #![trigger locals.len()]
        locals.len() == index && forall|j: int|
            0 <= j < index ==> mixed_c2c_stage_at(
                planners,
                pencils,
                shape,
                graph,
                j,
                Ok(#[trigger] locals[j]),
            )
}

/// Elements of the line that a stage keeps for lines that do not lie in one piece.
pub open spec fn strided_line<const N: usize, const M: usize>(
    pencil: Pencil<N, M>,
    axis: int,
    line_len: usize,
) -> usize {
    match pencil.stride_along(axis) {
        Some(stride) => if stride > 1 {
            line_len
        } else {
            0
        },
        None => 0,
    }
}

/// The lines of the stages of a mixed complex plan that do not lie in one piece.
pub open spec fn strided_complex_lines<const N: usize, const M: usize>(
    stages: Seq<Stage<N, M>>,
    locals: Seq<MixedComplexLocal>,
) -> Seq<usize> {
    Seq::new(
        stages.len(),
        |i: int|
            strided_line(stages[i].input, stages[i].axis as int, locals[i].spec_line_len()),
    )
}

/// The stages of a mixed complex plan.
#[derive(Debug)]
pub struct MixedC2cStages<const N: usize, const M: usize> {
    /// Where each stage works.
    pub stages: Vec<Stage<N, M>>,
    /// Its kernel.
    pub locals: Vec<MixedComplexLocal>,
    /// Elements of the embedding line.
    pub embedding_len: usize,
    /// Elements of the scratch buffer.
    pub fft_scratch_len: usize,
    /// Elements of the line for stages whose lines do not lie in one piece.
    pub strided_line_len: usize,
}

/// Prepares the kernel of one stage of a mixed complex plan, and tells the line that it keeps.
fn prepare_mixed_c2c_stage<C: Fn(BackendChoice, usize, bool) -> Result<LocalC2cPlan, BackendInitError<LocalC2cError>>, K: Fn(BackendChoice, AxisR2rKind, usize) -> Result<LocalR2rPlan, BackendInitError<LocalR2rError>>, B: Fn(BackendChoice, usize) -> Result<LocalR2cPlan, BackendInitError<LocalR2cError>>, const N: usize, const M: usize>(
    planners: &Planners<C, K, B>,
    pencils: &Vec<Pencil<N, M>>,
    shape: &[usize; N],
    graph: &MixedGraph<N>,
    index: usize,
) -> (result: Result<(MixedComplexLocal, usize), BackendInitError<MixedError>>)
    requires
        planners_answer(*planners),
        index < N,
        pencils@.len() == N,
        pencils@[index as int].wf(),
    ensures
        mixed_c2c_stage_at(
            *planners,
            pencils@,
            shape@,
            *graph,
            index as int,
            match result {
                Ok(prepared) => Ok(prepared.0),
                Err(error) => Err(error),
            },
        ),
        match result {
            Ok(prepared) => prepared.1 == strided_line(
                pencils@[index as int],
                N - 1 - index,
                prepared.0.spec_line_len(),
            ),
            Err(_) => true,
        },
{
    let axis: usize = N - 1 - index;
    let pencil: Pencil<N, M> = pencils[index];
    if !stage_axis_local(&pencil, axis, shape[axis]) {
        return Err(BackendInitError::Local(MixedError::Fft(FftError::PreparationFailed)));
    }
    let planned = complex_local(
        planners,
        graph.backend,
        graph.transforms[axis],
        shape[axis],
        graph.is_backward(axis),
    );
    let local: MixedComplexLocal = match planned {
        Ok(local) => local,
        Err(error) => {
            return Err(error);
        },
    };
    match memory_stride(&pencil, axis) {
        Ok(stride) => if stride > 1 {
            Ok((local, local.line_len()))
        } else {
            Ok((local, 0))
        },
        Err(_) => Err(BackendInitError::Local(MixedError::Fft(FftError::PreparationFailed))),
    }
}

/// Prepares the stages of a mixed complex plan: stage `i` transforms axis `N - 1 - i` where it
/// lies. The first stage that cannot be prepared decides the error.
/// The stages are listed in `room`.
pub fn prepare_mixed_c2c_stages_in<C: Fn(BackendChoice, usize, bool) -> Result<LocalC2cPlan, BackendInitError<LocalC2cError>>, K: Fn(BackendChoice, AxisR2rKind, usize) -> Result<LocalR2rPlan, BackendInitError<LocalR2rError>>, B: Fn(BackendChoice, usize) -> Result<LocalR2cPlan, BackendInitError<LocalR2cError>>, const N: usize, const M: usize>(
    room: Option<Vec<Stage<N, M>>>,
    planners: &Planners<C, K, B>,
    route: &RouteCandidate<N, M>,
    shape: &[usize; N],
    graph: &MixedGraph<N>,
) -> (result: Result<MixedC2cStages<N, M>, BackendInitError<MixedError>>)
    requires
        is_empty_room(room),
        planners_answer(*planners),
        route.wf(),
    ensures
        route.stages@.len() != N ==> result == Err::<
            MixedC2cStages<N, M>,
            BackendInitError<MixedError>,
        >(preparation_failed()),
        route.stages@.len() == N && room is None ==> result == Err::<MixedC2cStages<N, M>, BackendInitError<MixedError>>(
            BackendInitError::Local(MixedError::Fft(FftError::AllocationFailed { required: N })),
        ),
        route.stages@.len() == N && room is Some ==> match result {
            Ok(prepared) => {
                &&& prepared.stages@.len() == N
                &&& prepared.locals@.len() == N
                &&& stages_wf(prepared.stages@)
                &&& forall|i: int|
                    0 <= i < N ==> {
                        &&& (#[trigger] prepared.stages@[i]).axis == N - 1 - i
                        &&& prepared.stages@[i].input == route.stages@[i]
                        &&& prepared.stages@[i].output == route.stages@[i]
                    }
                &&& forall|i: int|
                    0 <= i < N ==> mixed_c2c_stage_at(
                        *planners,
                        route.stages@,
                        shape@,
                        *graph,
                        i,
                        Ok(#[trigger] prepared.locals@[i]),
                    )
                &&& prepared.embedding_len == largest_of(
                    prepared.locals@.map_values(
                        |local: MixedComplexLocal| local.spec_embedding_len(),
                    ),
                )
                &&& prepared.fft_scratch_len == largest_of(
                    prepared.locals@.map_values(
                        |local: MixedComplexLocal| local.spec_scratch_len(),
                    ),
                )
                &&& prepared.strided_line_len == largest_of(
                    strided_complex_lines(prepared.stages@, prepared.locals@),
                )
            },
            Err(error) => exists|i: int|
                0 <= i < N && #[trigger] mixed_c2c_stage_at(
                    *planners,
                    route.stages@,
                    shape@,
                    *graph,
                    i,
                    Err(error),
                ) && mixed_c2c_stages_before(*planners, route.stages@, shape@, *graph, i),
        },
{
    if route.stages.len() != N {
        return Err(BackendInitError::Local(MixedError::Fft(FftError::PreparationFailed)));
    }
    let mut stages: Vec<Stage<N, M>> = match room {
        Some(stages) => stages,
        None => {
            return Err(
                BackendInitError::Local(MixedError::Fft(FftError::AllocationFailed { required: N })),
            );
        },
    };
    let mut locals: Vec<MixedComplexLocal> = Vec::new();
    let mut embedding_len: usize = 0;
    let mut fft_scratch_len: usize = 0;
    let mut strided_line_len: usize = 0;
    let mut index: usize = 0;
    let ghost embedding = |local: MixedComplexLocal| local.spec_embedding_len();
    let ghost scratch = |local: MixedComplexLocal| local.spec_scratch_len();
    while index < N
        invariant
            index <= N,
            room is Some,
            planners_answer(*planners),
            route.stages@.len() == N,
            route.wf(),
            stages@.len() == index,
            locals@.len() == index,
            stages_wf(stages@),
            forall|i: int|
                0 <= i < index ==> {
                    &&& (#[trigger] stages@[i]).axis == N - 1 - i
                    &&& stages@[i].input == route.stages@[i]
                    &&& stages@[i].output == route.stages@[i]
                },
            forall|i: int|
                0 <= i < index ==> mixed_c2c_stage_at(
                    *planners,
                    route.stages@,
                    shape@,
                    *graph,
                    i,
                    Ok(#[trigger] locals@[i]),
                ),
            embedding == (|local: MixedComplexLocal| local.spec_embedding_len()),
            scratch == (|local: MixedComplexLocal| local.spec_scratch_len()),
            embedding_len == largest_of(locals@.map_values(embedding)),
            fft_scratch_len == largest_of(locals@.map_values(scratch)),
            strided_line_len == largest_of(strided_complex_lines(stages@, locals@)),
        decreases N - index,
    {
        proof {
            assert(route.stages@[index as int].wf());
        }
        let prepared = prepare_mixed_c2c_stage(planners, &route.stages, shape, graph, index);
        let (local, line_len): (MixedComplexLocal, usize) = match prepared {
            Ok(pair) => pair,
            Err(error) => {
                assert(mixed_c2c_stages_before(
                    *planners,
                    route.stages@,
                    shape@,
                    *graph,
                    index as int,
                )) by {
                    assert(locals@.len() == index);
                }
                return Err(error);
            },
        };
        let ghost earlier = locals@;
        let ghost earlier_stages = stages@;
        embedding_len = max_len(embedding_len, local.embedding_len());
        fft_scratch_len = max_len(fft_scratch_len, local.scratch_len());
        strided_line_len = max_len(strided_line_len, line_len);
        let pencil: Pencil<N, M> = route.stages[index];
        stages.push(Stage { axis: N - 1 - index, input: pencil, output: pencil });
        locals.push(local);
        proof {
            lemma_largest_map_push(earlier, local, embedding);
            lemma_largest_map_push(earlier, local, scratch);
            assert(strided_complex_lines(stages@, locals@) =~= strided_complex_lines(
                earlier_stages,
                earlier,
            ).push(line_len));
            lemma_largest_push(strided_complex_lines(earlier_stages, earlier), line_len);
        }
        index += 1;
    }
    Ok(MixedC2cStages { stages, locals, embedding_len, fft_scratch_len, strided_line_len })
}

/// Prepares the stages of a mixed complex plan: stage `i` transforms axis `N - 1 - i` where it
/// lies. The first stage that cannot be prepared decides the error. Whether there is room for them
/// rests on the machine; [`prepare_mixed_c2c_stages_in`] says what follows for each answer.
pub fn prepare_mixed_c2c_stages<C: Fn(BackendChoice, usize, bool) -> Result<LocalC2cPlan, BackendInitError<LocalC2cError>>, K: Fn(BackendChoice, AxisR2rKind, usize) -> Result<LocalR2rPlan, BackendInitError<LocalR2rError>>, B: Fn(BackendChoice, usize) -> Result<LocalR2cPlan, BackendInitError<LocalR2cError>>, const N: usize, const M: usize>(
    planners: &Planners<C, K, B>,
    route: &RouteCandidate<N, M>,
    shape: &[usize; N],
    graph: &MixedGraph<N>,
) -> (result: Result<MixedC2cStages<N, M>, BackendInitError<MixedError>>)
    requires
        planners_answer(*planners),
        route.wf(),
    ensures
        route.stages@.len() != N ==> result == Err::<
            MixedC2cStages<N, M>,
            BackendInitError<MixedError>,
        >(preparation_failed()),
        route.stages@.len() == N ==> match result {
            Ok(prepared) => {
                &&& prepared.stages@.len() == N
                &&& prepared.locals@.len() == N
                &&& stages_wf(prepared.stages@)
                &&& forall|i: int|
                    0 <= i < N ==> {
                        &&& (#[trigger] prepared.stages@[i]).axis == N - 1 - i
                        &&& prepared.stages@[i].input == route.stages@[i]
                        &&& prepared.stages@[i].output == route.stages@[i]
                    }
                &&& forall|i: int|
                    0 <= i < N ==> mixed_c2c_stage_at(
                        *planners,
                        route.stages@,
                        shape@,
                        *graph,
                        i,
                        Ok(#[trigger] prepared.locals@[i]),
                    )
                &&& prepared.embedding_len == largest_of(
                    prepared.locals@.map_values(
                        |local: MixedComplexLocal| local.spec_embedding_len(),
                    ),
                )
                &&& prepared.fft_scratch_len == largest_of(
                    prepared.locals@.map_values(
                        |local: MixedComplexLocal| local.spec_scratch_len(),
                    ),
                )
                &&& prepared.strided_line_len == largest_of(
                    strided_complex_lines(prepared.stages@, prepared.locals@),
                )
            },
            Err(error) => {
                ||| error == BackendInitError::Local(
                    MixedError::Fft(FftError::AllocationFailed { required: N }),
                )
                ||| exists|i: int|
                    0 <= i < N && #[trigger] mixed_c2c_stage_at(
                        *planners,
                        route.stages@,
                        shape@,
                        *graph,
                        i,
                        Err(error),
                    ) && mixed_c2c_stages_before(*planners, route.stages@, shape@, *graph, i)
            },
        },
{
    let room: Option<Vec<Stage<N, M>>> = room_for(N);
    prepare_mixed_c2c_stages_in(room, planners, route, shape, graph)
}

/// What the kernel of a real mixed stage before the boundary comes to.
pub open spec fn real_local_given<C, K: Fn(BackendChoice, AxisR2rKind, usize) -> Result<LocalR2rPlan, BackendInitError<LocalR2rError>>, B>(
    planners: Planners<C, K, B>,
    backend: BackendChoice,
    transform: AxisTransform,
    len: usize,
    outcome: Result<MixedR2cStageLocal, BackendInitError<MixedError>>,
) -> bool {
    match transform {
        AxisTransform::Unchanged => outcome == Ok::<
            MixedR2cStageLocal,
            BackendInitError<MixedError>,
        >(MixedR2cStageLocal::Real(MixedRealLocal::Identity)),
        AxisTransform::R2r(kind) => exists|
            planned: Result<LocalR2rPlan, BackendInitError<LocalR2rError>>,
        |
            {
                &&& #[trigger] r2r_planned(planners, backend, kind, len, planned)
                &&& outcome == match spec_mixed_r2r_local(kind, planned) {
                    Ok(plan) => Ok::<MixedR2cStageLocal, BackendInitError<MixedError>>(
                        MixedR2cStageLocal::Real(MixedRealLocal::R2r(plan)),
                    ),
                    Err(error) => Err(error),
                }
            },
        _ => outcome == Err::<MixedR2cStageLocal, BackendInitError<MixedError>>(
            BackendInitError::Local(MixedError::InvalidGraph),
        ),
    }
}

/// What the kernel of the boundary comes to.
pub open spec fn boundary_local_given<C, K, B: Fn(BackendChoice, usize) -> Result<LocalR2cPlan, BackendInitError<LocalR2cError>>>(
    planners: Planners<C, K, B>,
    backend: BackendChoice,
    len: usize,
    outcome: Result<MixedR2cStageLocal, BackendInitError<MixedError>>,
) -> bool {
    exists|planned: Result<LocalR2cPlan, BackendInitError<LocalR2cError>>|
        {
            &&& #[trigger] r2c_planned(planners, backend, len, planned)
            &&& outcome == match spec_mixed_r2c_local(planned) {
                Ok(plan) => Ok::<MixedR2cStageLocal, BackendInitError<MixedError>>(
                    MixedR2cStageLocal::Real(MixedRealLocal::Rfft(plan)),
                ),
                Err(error) => Err(error),
            }
        }
}

/// A complex kernel as that of a stage behind the boundary.
pub open spec fn behind_boundary(
    outcome: Result<MixedComplexLocal, BackendInitError<MixedError>>,
) -> Result<MixedR2cStageLocal, BackendInitError<MixedError>> {
    match outcome {
        Ok(local) => Ok(MixedR2cStageLocal::Complex(local)),
        Err(error) => Err(error),
    }
}

/// Every layout of stage `index` holds the stage's axis in one piece.
pub open spec fn mixed_r2c_stage_local<const N: usize, const M: usize>(
    routes: RoutePair<N, M>,
    boundary: int,
    index: int,
) -> bool {
    let axis = N - 1 - index;
    &&& index <= boundary ==> axis_is_local(
        routes.original_route.stages@[index],
        axis,
        routes.original_shape@[axis] as int,
    )
    &&& index >= boundary ==> axis_is_local(
        routes.reduced_route.stages@[index],
        axis,
        routes.reduced_shape@[axis] as int,
    )
}

/// What preparing stage `index` of a mixed real-to-complex plan comes to.
pub open spec fn mixed_r2c_stage_at<C: Fn(BackendChoice, usize, bool) -> Result<LocalC2cPlan, BackendInitError<LocalC2cError>>, K: Fn(BackendChoice, AxisR2rKind, usize) -> Result<LocalR2rPlan, BackendInitError<LocalR2rError>>, B: Fn(BackendChoice, usize) -> Result<LocalR2cPlan, BackendInitError<LocalR2cError>>, const N: usize, const M: usize>(
    planners: Planners<C, K, B>,
    routes: RoutePair<N, M>,
    graph: MixedGraph<N>,
    boundary: int,
    index: int,
    outcome: Result<MixedR2cStageLocal, BackendInitError<MixedError>>,
) -> bool {
    let axis = N - 1 - index;
    if !mixed_r2c_stage_local(routes, boundary, index) {
        outcome == Err::<MixedR2cStageLocal, BackendInitError<MixedError>>(preparation_failed())
    } else if index < boundary {
        real_local_given(
            planners,
            graph.backend,
            graph.transforms@[axis],
            routes.original_shape@[axis],
            outcome,
        )
    } else if index == boundary {
        boundary_local_given(planners, graph.backend, routes.original_shape@[axis], outcome)
    } else {
        exists|local: Result<MixedComplexLocal, BackendInitError<MixedError>>|
            {
                &&& #[trigger] complex_local_given(
                    planners,
                    graph.backend,
                    graph.transforms@[axis],
                    routes.reduced_shape@[axis],
                    graph.backward(axis),
                    local,
                )
                &&& outcome == behind_boundary(local)
            }
    }
}

/// The stages before `index` of a mixed real-to-complex plan can be prepared.
pub open spec fn mixed_r2c_stages_before<C: Fn(BackendChoice, usize, bool) -> Result<LocalC2cPlan, BackendInitError<LocalC2cError>>, K: Fn(BackendChoice, AxisR2rKind, usize) -> Result<LocalR2rPlan, BackendInitError<LocalR2rError>>, B: Fn(BackendChoice, usize) -> Result<LocalR2cPlan, BackendInitError<LocalR2cError>>, const N: usize, const M: usize>(
    planners: Planners<C, K, B>,
    routes: RoutePair<N, M>,
    graph: MixedGraph<N>,
    boundary: int,
    index: int,
) -> bool {
    exists|locals: Seq<MixedR2cStageLocal>|
        #![trigger locals.len()]
        locals.len() == index && forall|j: int|
            0 <= j < index ==> mixed_r2c_stage_at(
                planners,
                routes,
                graph,
                boundary,
                j,
                Ok(#[trigger] locals[j]),
            )
}

impl MixedR2cStageLocal {
    /// Elements of the embedding line.
    pub open spec fn spec_embedding_len(self) -> usize {
        match self {
            MixedR2cStageLocal::Real(local) => local.spec_embedding_len(),
            MixedR2cStageLocal::Complex(local) => local.spec_embedding_len(),
        }
    }

    /// Elements of the scratch buffer.
    pub open spec fn spec_scratch_len(self) -> usize {
        match self {
            MixedR2cStageLocal::Real(local) => local.spec_scratch_len(),
            MixedR2cStageLocal::Complex(local) => local.spec_scratch_len(),
        }
    }

    /// Elements of the real line.
    pub open spec fn spec_real_line_len(self) -> usize {
        match self {
            MixedR2cStageLocal::Real(local) => local.spec_line_len(),
            MixedR2cStageLocal::Complex(_) => 0,
        }
    }

    /// Elements of the complex line.
    pub open spec fn spec_complex_line_len(self) -> usize {
        match self {
            MixedR2cStageLocal::Real(_) => 0,
            MixedR2cStageLocal::Complex(local) => local.spec_line_len(),
        }
    }
}

/// The stages of a mixed real-to-complex plan.
#[derive(Debug)]
pub struct MixedR2cStages<const N: usize, const M: usize> {
    /// Where each stage works.
    pub stages: Vec<Stage<N, M>>,
    /// Its kernel.
    pub locals: Vec<MixedR2cStageLocal>,
    /// The buffers that the kernels need.
    pub lens: MixedLens,
}

/// Elements of the buffers that mixed kernels need.
#[derive(Clone, Copy, Debug, PartialEq, Eq, Structural)]
pub struct MixedLens {
    /// Elements of the embedding line.
    pub embedding_len: usize,
    /// Elements of the scratch buffer.
    pub fft_scratch_len: usize,
    /// Elements of the real line.
    pub real_line_len: usize,
    /// Elements of the complex line.
    pub complex_line_len: usize,
}

/// The buffers hold what each kernel needs, and no more than the largest need.
pub open spec fn mixed_lens_of(locals: Seq<MixedR2cStageLocal>) -> MixedLens {
    MixedLens {
        embedding_len: largest_of(
            locals.map_values(|local: MixedR2cStageLocal| local.spec_embedding_len()),
        ),
        fft_scratch_len: largest_of(
            locals.map_values(|local: MixedR2cStageLocal| local.spec_scratch_len()),
        ),
        real_line_len: largest_of(
            locals.map_values(|local: MixedR2cStageLocal| local.spec_real_line_len()),
        ),
        complex_line_len: largest_of(
            locals.map_values(|local: MixedR2cStageLocal| local.spec_complex_line_len()),
        ),
    }
}

/// Extends the buffers to what one more kernel needs.
fn with_local(lens: MixedLens, local: &MixedR2cStageLocal, Ghost(locals): Ghost<Seq<MixedR2cStageLocal>>) -> (result:
    MixedLens)
    requires
        lens == mixed_lens_of(locals),
    ensures
        result == mixed_lens_of(locals.push(*local)),
{
    proof {
        lemma_largest_map_push(
            locals,
            *local,
            |local: MixedR2cStageLocal| local.spec_embedding_len(),
        );
        lemma_largest_map_push(
            locals,
            *local,
            |local: MixedR2cStageLocal| local.spec_scratch_len(),
        );
        lemma_largest_map_push(
            locals,
            *local,
            |local: MixedR2cStageLocal| local.spec_real_line_len(),
        );
        lemma_largest_map_push(
            locals,
            *local,
            |local: MixedR2cStageLocal| local.spec_complex_line_len(),
        );
    }
    match local {
        MixedR2cStageLocal::Real(local) => MixedLens {
            embedding_len: max_len(lens.embedding_len, local.embedding_len()),
            fft_scratch_len: max_len(lens.fft_scratch_len, local.scratch_len()),
            real_line_len: max_len(lens.real_line_len, local_line_len_real(local)),
            complex_line_len: lens.complex_line_len,
        },
        MixedR2cStageLocal::Complex(local) => MixedLens {
            embedding_len: max_len(lens.embedding_len, local.embedding_len()),
            fft_scratch_len: max_len(lens.fft_scratch_len, local.scratch_len()),
            real_line_len: lens.real_line_len,
            complex_line_len: max_len(lens.complex_line_len, local_line_len_complex(local)),
        },
    }
}

/// Prepares the kernel of one stage of a mixed real-to-complex plan.
fn prepare_mixed_r2c_stage<C: Fn(BackendChoice, usize, bool) -> Result<LocalC2cPlan, BackendInitError<LocalC2cError>>, K: Fn(BackendChoice, AxisR2rKind, usize) -> Result<LocalR2rPlan, BackendInitError<LocalR2rError>>, B: Fn(BackendChoice, usize) -> Result<LocalR2cPlan, BackendInitError<LocalR2cError>>, const N: usize, const M: usize>(
    planners: &Planners<C, K, B>,
    routes: &RoutePair<N, M>,
    graph: &MixedGraph<N>,
    boundary: usize,
    index: usize,
) -> (result: Result<MixedR2cStageLocal, BackendInitError<MixedError>>)
    requires
        planners_answer(*planners),
        routes.wf(),
        routes.complete(),
        index < N,
    ensures
        mixed_r2c_stage_at(*planners, *routes, *graph, boundary as int, index as int, result),
{
    let axis: usize = N - 1 - index;
    let original: Pencil<N, M> = routes.original_route.stages[index];
    let reduced: Pencil<N, M> = routes.reduced_route.stages[index];
    proof {
        assert(routes.original_route.stages@[index as int].wf());
        assert(routes.reduced_route.stages@[index as int].wf());
    }
    if index <= boundary && !stage_axis_local(&original, axis, routes.original_shape[axis]) {
        return Err(BackendInitError::Local(MixedError::Fft(FftError::PreparationFailed)));
    }
    if index >= boundary && !stage_axis_local(&reduced, axis, routes.reduced_shape[axis]) {
        return Err(BackendInitError::Local(MixedError::Fft(FftError::PreparationFailed)));
    }
    if index < boundary {
        match graph.transforms[axis] {
            AxisTransform::Unchanged => Ok(MixedR2cStageLocal::Real(MixedRealLocal::Identity)),
            AxisTransform::R2r(kind) => {
                let planner = &planners.r2r;
                let planned = planner(graph.backend, kind, routes.original_shape[axis]);
                assert(r2r_planned(
                    *planners,
                    graph.backend,
                    kind,
                    routes.original_shape@[axis as int],
                    planned,
                ));
                match mixed_r2r_local(kind, planned) {
                    Ok(plan) => Ok(MixedR2cStageLocal::Real(MixedRealLocal::R2r(plan))),
                    Err(error) => Err(error),
                }
            },
            _ => Err(BackendInitError::Local(MixedError::InvalidGraph)),
        }
    } else if index == boundary {
        let planner = &planners.r2c;
        let planned = planner(graph.backend, routes.original_shape[axis]);
        assert(r2c_planned(
            *planners,
            graph.backend,
            routes.original_shape@[axis as int],
            planned,
        ));
        match mixed_r2c_local(planned) {
            Ok(plan) => Ok(MixedR2cStageLocal::Real(MixedRealLocal::Rfft(plan))),
            Err(error) => Err(error),
        }
    } else {
        match complex_local(
            planners,
            graph.backend,
            graph.transforms[axis],
            routes.reduced_shape[axis],
            graph.is_backward(axis),
        ) {
            Ok(local) => Ok(MixedR2cStageLocal::Complex(local)),
            Err(error) => Err(error),
        }
    }
}

/// Prepares the stages of a mixed real-to-complex plan whose boundary is stage `boundary`. The
/// first stage that cannot be prepared decides the error.
/// The stages are listed in `room`.
pub fn prepare_mixed_r2c_stages_in<C: Fn(BackendChoice, usize, bool) -> Result<LocalC2cPlan, BackendInitError<LocalC2cError>>, K: Fn(BackendChoice, AxisR2rKind, usize) -> Result<LocalR2rPlan, BackendInitError<LocalR2rError>>, B: Fn(BackendChoice, usize) -> Result<LocalR2cPlan, BackendInitError<LocalR2cError>>, const N: usize, const M: usize>(
    room: Option<Vec<Stage<N, M>>>,
    planners: &Planners<C, K, B>,
    routes: &RoutePair<N, M>,
    graph: &MixedGraph<N>,
    boundary: usize,
) -> (result: Result<MixedR2cStages<N, M>, BackendInitError<MixedError>>)
    requires
        is_empty_room(room),
        planners_answer(*planners),
        routes.wf(),
    ensures
        !routes.complete() ==> result == Err::<MixedR2cStages<N, M>, BackendInitError<MixedError>>(
            preparation_failed(),
        ),
        routes.complete() && room is None ==> result == Err::<MixedR2cStages<N, M>, BackendInitError<MixedError>>(
            BackendInitError::Local(MixedError::Fft(FftError::AllocationFailed { required: N })),
        ),
        routes.complete() && room is Some ==> match result {
            Ok(prepared) => {
                &&& prepared.stages@.len() == N
                &&& prepared.locals@.len() == N
                &&& stages_wf(prepared.stages@)
                &&& forall|i: int|
                    0 <= i < N ==> #[trigger] prepared.stages@[i] == routes.stage_at(
                        boundary as int,
                        i,
                    )
                &&& forall|i: int|
                    0 <= i < N ==> mixed_r2c_stage_at(
                        *planners,
                        *routes,
                        *graph,
                        boundary as int,
                        i,
                        Ok(#[trigger] prepared.locals@[i]),
                    )
                &&& prepared.lens == mixed_lens_of(prepared.locals@)
            },
            Err(error) => exists|i: int|
                0 <= i < N && #[trigger] mixed_r2c_stage_at(
                    *planners,
                    *routes,
                    *graph,
                    boundary as int,
                    i,
                    Err(error),
                ) && mixed_r2c_stages_before(*planners, *routes, *graph, boundary as int, i),
        },
{
    if routes.original_route.stages.len() != N || routes.reduced_route.stages.len() != N {
        return Err(BackendInitError::Local(MixedError::Fft(FftError::PreparationFailed)));
    }
    let mut stages: Vec<Stage<N, M>> = match room {
        Some(stages) => stages,
        None => {
            return Err(
                BackendInitError::Local(MixedError::Fft(FftError::AllocationFailed { required: N })),
            );
        },
    };
    let mut locals: Vec<MixedR2cStageLocal> = Vec::new();
    let mut lens: MixedLens = MixedLens {
        embedding_len: 0,
        fft_scratch_len: 0,
        real_line_len: 0,
        complex_line_len: 0,
    };
    let mut index: usize = 0;
    while index < N
        invariant
            index <= N,
            room is Some,
            planners_answer(*planners),
            routes.wf(),
            routes.complete(),
            stages@.len() == index,
            locals@.len() == index,
            stages_wf(stages@),
            forall|i: int|
                0 <= i < index ==> #[trigger] stages@[i] == routes.stage_at(boundary as int, i),
            forall|i: int|
                0 <= i < index ==> mixed_r2c_stage_at(
                    *planners,
                    *routes,
                    *graph,
                    boundary as int,
                    i,
                    Ok(#[trigger] locals@[i]),
                ),
            lens == mixed_lens_of(locals@),
        decreases N - index,
    {
        let local: MixedR2cStageLocal = match prepare_mixed_r2c_stage(
            planners,
            routes,
            graph,
            boundary,
            index,
        ) {
            Ok(local) => local,
            Err(error) => {
                assert(mixed_r2c_stages_before(
                    *planners,
                    *routes,
                    *graph,
                    boundary as int,
                    index as int,
                )) by {
                    assert(locals@.len() == index);
                }
                return Err(error);
            },
        };
        lens = with_local(lens, &local, Ghost(locals@));
        stages.push(routes.stage(boundary, index));
        locals.push(local);
        index += 1;
    }
    Ok(MixedR2cStages { stages, locals, lens })
}

/// Prepares the stages of a mixed real-to-complex plan whose boundary is stage `boundary`. The
/// first stage that cannot be prepared decides the error. Whether there is room for them rests on
/// the machine; [`prepare_mixed_r2c_stages_in`] says what follows for each answer.
pub fn prepare_mixed_r2c_stages<C: Fn(BackendChoice, usize, bool) -> Result<LocalC2cPlan, BackendInitError<LocalC2cError>>, K: Fn(BackendChoice, AxisR2rKind, usize) -> Result<LocalR2rPlan, BackendInitError<LocalR2rError>>, B: Fn(BackendChoice, usize) -> Result<LocalR2cPlan, BackendInitError<LocalR2cError>>, const N: usize, const M: usize>(
    planners: &Planners<C, K, B>,
    routes: &RoutePair<N, M>,
    graph: &MixedGraph<N>,
    boundary: usize,
) -> (result: Result<MixedR2cStages<N, M>, BackendInitError<MixedError>>)
    requires
        planners_answer(*planners),
        routes.wf(),
    ensures
        !routes.complete() ==> result == Err::<MixedR2cStages<N, M>, BackendInitError<MixedError>>(
            preparation_failed(),
        ),
        routes.complete() ==> match result {
            Ok(prepared) => {
                &&& prepared.stages@.len() == N
                &&& prepared.locals@.len() == N
                &&& stages_wf(prepared.stages@)
                &&& forall|i: int|
                    0 <= i < N ==> #[trigger] prepared.stages@[i] == routes.stage_at(
                        boundary as int,
                        i,
                    )
                &&& forall|i: int|
                    0 <= i < N ==> mixed_r2c_stage_at(
                        *planners,
                        *routes,
                        *graph,
                        boundary as int,
                        i,
                        Ok(#[trigger] prepared.locals@[i]),
                    )
                &&& prepared.lens == mixed_lens_of(prepared.locals@)
            },
            Err(error) => {
                ||| error == BackendInitError::Local(
                    MixedError::Fft(FftError::AllocationFailed { required: N }),
                )
                ||| exists|i: int|
                    0 <= i < N && #[trigger] mixed_r2c_stage_at(
                        *planners,
                        *routes,
                        *graph,
                        boundary as int,
                        i,
                        Err(error),
                    ) && mixed_r2c_stages_before(*planners, *routes, *graph, boundary as int, i)
            },
        },
{
    let room: Option<Vec<Stage<N, M>>> = room_for(N);
    prepare_mixed_r2c_stages_in(room, planners, routes, graph, boundary)
}

} // verus!
