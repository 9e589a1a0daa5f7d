//! The stages of a route, with the kernels that a planner gives for them.

use vstd::prelude::*;

use crate::error::FftError;
use crate::error::LocalC2cError;
use crate::error::LocalR2cError;
use crate::error::LocalR2rError;
use crate::error::R2cError;
use crate::error::R2rError;
use crate::graph::axis_is_local;
use crate::graph::stage_axis_local;
use crate::layout::AxisSelection;
use crate::layout::Pencil;
use crate::local::AxisR2rKind;
use crate::local::LocalC2cPlan;
use crate::local::LocalR2cPlan;
use crate::local::LocalR2rPlan;
use crate::local::LocalTransform;
use crate::local::R2rLocal;
use crate::registry::is_empty_room;
use crate::registry::room_for;
use crate::registry::stages_wf;
use crate::registry::Stage;
use crate::sweep::larger;
use crate::sweep::max_len;

verus! {

/// The layouts that a transform goes through, from the last axis to the first, and the axis that
/// each transition between them distributes.
#[derive(Debug)]
pub struct RouteCandidate<const N: usize, const M: usize> {
    /// The layout of each stage.
    pub stages: Vec<Pencil<N, M>>,
    /// For each transition, the process dimension that it exchanges over.
    pub distributed: Vec<usize>,
}

impl<const N: usize, const M: usize> RouteCandidate<N, M> {
    /// All layouts are well formed.
    pub open spec fn wf(&self) -> bool {
        forall|i: int| 0 <= i < self.stages@.len() ==> (#[trigger] self.stages@[i]).wf()
    }
}

/// The largest of some lengths; zero if there is none.
pub open spec fn largest_of(lens: Seq<usize>) -> usize
    decreases lens.len(),
{
    if lens.len() == 0 {
        0
    } else {
        larger(largest_of(lens.drop_last()), lens.last())
    }
}

/// The largest length is no less than any of them, and one of them unless it is zero.
pub proof fn lemma_largest_of(lens: Seq<usize>)
    ensures
        forall|i: int| 0 <= i < lens.len() ==> #[trigger] lens[i] <= largest_of(lens),
        largest_of(lens) > 0 ==> lens.contains(largest_of(lens)),
    decreases lens.len(),
{
    if lens.len() > 0 {
        let shorter = lens.drop_last();
        lemma_largest_of(shorter);
        assert forall|i: int| 0 <= i < lens.len() implies #[trigger] lens[i] <= largest_of(lens) by {
            if i < shorter.len() {
                assert(shorter[i] == lens[i]);
            }
        }
        if largest_of(lens) > 0 {
            if largest_of(lens) == lens.last() {
                assert(lens[lens.len() - 1] == largest_of(lens));
            } else {
                let k = choose|k: int| 0 <= k < shorter.len() && shorter[k] == largest_of(shorter);
                assert(lens[k] == largest_of(lens));
            }
        }
    }
}

/// Adding a length keeps the larger one.
pub proof fn lemma_largest_push(lens: Seq<usize>, len: usize)
    ensures
        largest_of(lens.push(len)) == larger(largest_of(lens), len),
{
    assert(lens.push(len).drop_last() =~= lens);
}

/// Adding an item adds its length.
pub proof fn lemma_largest_map_push<A>(items: Seq<A>, item: A, len_of: spec_fn(A) -> usize)
    ensures
        largest_of(items.push(item).map_values(len_of)) == larger(
            largest_of(items.map_values(len_of)),
            len_of(item),
        ),
{
    assert(items.push(item).map_values(len_of).drop_last() =~= items.map_values(len_of));
}

/// The stages of a real-to-real plan.
#[derive(Debug)]
pub struct R2rStages<const N: usize, const M: usize> {
    /// Where each stage works.
    pub stages: Vec<Stage<N, M>>,
    /// Its kernel.
    pub locals: Vec<R2rLocal>,
    /// Elements of the embedding line.
    pub embedding_len: usize,
    /// Elements of the scratch buffer.
    pub fft_scratch_len: usize,
}

/// Elements of the embedding line of a real-to-real kernel.
pub open spec fn r2r_embedding(local: R2rLocal) -> usize {
    match local.plan() {
        Some(plan) => plan.embedding_len,
        None => 0,
    }
}

/// Elements of the scratch buffer of a real-to-real kernel.
pub open spec fn r2r_scratch(local: R2rLocal) -> usize {
    match local.plan() {
        Some(plan) => plan.scratch_len,
        None => 0,
    }
}

/// What preparing a real-to-real stage along `axis` comes to: the axis must lie in one piece with
/// `len` elements, and a kind asks the planner for a kernel of that length.
pub open spec fn r2r_stage_given<P: Fn(AxisR2rKind, usize) -> Result<LocalR2rPlan, LocalR2rError>, const N: usize, const M: usize>(
    planner: P,
    pencil: Pencil<N, M>,
    axis: int,
    len: usize,
    kind: Option<AxisR2rKind>,
    outcome: Result<R2rLocal, R2rError>,
) -> bool {
    if !axis_is_local(pencil, axis, len as int) {
        outcome == Err::<R2rLocal, R2rError>(R2rError::Fft(FftError::PreparationFailed))
    } else {
        match (kind, outcome) {
            (None, Ok(local)) => local == R2rLocal::Identity,
            (Some(AxisR2rKind::Fftw(r2r)), Ok(R2rLocal::Transform(plan))) => planner.ensures(
                (AxisR2rKind::Fftw(r2r), len),
                Ok(plan),
            ),
            (Some(AxisR2rKind::Dht), Ok(R2rLocal::Hartley(plan))) => planner.ensures(
                (AxisR2rKind::Dht, len),
                Ok(plan),
            ),
            (Some(asked), Err(R2rError::LocalR2r(error))) => planner.ensures(
                (asked, len),
                Err(error),
            ),
            _ => false,
        }
    }
}

/// Stage `index` of a real-to-real plan comes to `outcome`.
pub open spec fn r2r_stage_at<P: Fn(AxisR2rKind, usize) -> Result<LocalR2rPlan, LocalR2rError>, const N: usize, const M: usize>(
    planner: P,
    pencils: Seq<Pencil<N, M>>,
    shape: Seq<usize>,
    kinds: Seq<Option<AxisR2rKind>>,
    index: int,
    outcome: Result<R2rLocal, R2rError>,
) -> bool {
    let axis = N - 1 - index;
    r2r_stage_given(planner, pencils[index], axis, shape[axis], kinds[axis], outcome)
}

/// The stages before `index` of a real-to-real plan can be prepared.
pub open spec fn r2r_stages_before<P: Fn(AxisR2rKind, usize) -> Result<LocalR2rPlan, LocalR2rError>, const N: usize, const M: usize>(
    planner: P,
    pencils: Seq<Pencil<N, M>>,
    shape: Seq<usize>,
    kinds: Seq<Option<AxisR2rKind>>,
    index: int,
) -> bool {
    exists|locals: Seq<R2rLocal>|
        #![trigger locals.len()]
        locals.len() == index && forall|j: int|
            0 <= j < index ==> r2r_stage_at(planner, pencils, shape, kinds, j, Ok(#[trigger] locals[j]))
}

/// Prepares the kernel of one real-to-real stage.
fn prepare_r2r_stage<P: Fn(AxisR2rKind, usize) -> Result<LocalR2rPlan, LocalR2rError>, const N: usize, const M: usize>(
    planner: &P,
    pencil: &Pencil<N, M>,
    axis: usize,
    len: usize,
    kind: Option<AxisR2rKind>,
) -> (result: Result<R2rLocal, R2rError>)
    requires
        pencil.wf(),
        axis < N,
        forall|asked: AxisR2rKind, n: usize| #[trigger] planner.requires((asked, n)),
    ensures
        r2r_stage_given(*planner, *pencil, axis as int, len, kind, result),
{
    if !stage_axis_local(pencil, axis, len) {
        return Err(R2rError::Fft(FftError::PreparationFailed));
    }
    match kind {
        None => Ok(R2rLocal::Identity),
        Some(AxisR2rKind::Fftw(r2r)) => match planner(AxisR2rKind::Fftw(r2r), len) {
            Ok(plan) => Ok(R2rLocal::Transform(plan)),
            Err(error) => Err(R2rError::LocalR2r(error)),
        },
        Some(AxisR2rKind::Dht) => match planner(AxisR2rKind::Dht, len) {
            Ok(plan) => Ok(R2rLocal::Hartley(plan)),
            Err(error) => Err(R2rError::LocalR2r(error)),
        },
    }
}

/// Prepares the stages of a real-to-real plan: stage `i` transforms axis `N - 1 - i` where it
/// lies. The first stage that cannot be prepared decides the error.
/// The stages are listed in `room`.
pub fn prepare_r2r_stages_in<P: Fn(AxisR2rKind, usize) -> Result<LocalR2rPlan, LocalR2rError>, const N: usize, const M: usize>(
    room: Option<Vec<Stage<N, M>>>,
    planner: &P,
    route: &RouteCandidate<N, M>,
    global_shape: &[usize; N],
    kinds: &[Option<AxisR2rKind>; N],
) -> (result: Result<R2rStages<N, M>, R2rError>)
    requires
        is_empty_room(room),
        route.wf(),
        forall|asked: AxisR2rKind, n: usize| #[trigger] planner.requires((asked, n)),
    ensures
        route.stages@.len() != N ==> result == Err::<R2rStages<N, M>, R2rError>(
            R2rError::Fft(FftError::PreparationFailed),
        ),
        route.stages@.len() == N && room is None ==> result == Err::<R2rStages<N, M>, R2rError>(
            R2rError::Fft(FftError::AllocationFailed { required: N }),
        ),
        route.stages@.len() == N && room is Some ==> match result {
            Ok(prepared) => {
                &&& prepared.stages@.len() == N
                &&& prepared.locals@.len() == N
                &&& stages_wf(prepared.stages@)
                &&& forall|i: int|
                    0 <= i < N ==> {
                        &&& (#[trigger] prepared.stages@[i]).axis == N - 1 - i
                        &&& prepared.stages@[i].input == route.stages@[i]
                        &&& prepared.stages@[i].output == route.stages@[i]
                    }
                &&& forall|i: int|
                    0 <= i < N ==> r2r_stage_at(
                        *planner,
                        route.stages@,
                        global_shape@,
                        kinds@,
                        i,
                        Ok(#[trigger] prepared.locals@[i]),
                    )
                &&& prepared.embedding_len == largest_of(
                    prepared.locals@.map_values(|local: R2rLocal| r2r_embedding(local)),
                )
                &&& prepared.fft_scratch_len == largest_of(
                    prepared.locals@.map_values(|local: R2rLocal| r2r_scratch(local)),
                )
            },
            Err(error) => exists|i: int|
                0 <= i < N && #[trigger] r2r_stage_at(
                    *planner,
                    route.stages@,
                    global_shape@,
                    kinds@,
                    i,
                    Err(error),
                ) && r2r_stages_before(*planner, route.stages@, global_shape@, kinds@, i),
        },
{
    if route.stages.len() != N {
        return Err(R2rError::Fft(FftError::PreparationFailed));
    }
    let mut stages: Vec<Stage<N, M>> = match room {
        Some(stages) => stages,
        None => {
            return Err(R2rError::Fft(FftError::AllocationFailed { required: N }));
        },
    };
    let mut locals: Vec<R2rLocal> = Vec::new();
    let mut embedding_len: usize = 0;
    let mut fft_scratch_len: usize = 0;
    let mut index: usize = 0;
    let ghost embedding = |local: R2rLocal| r2r_embedding(local);
    let ghost scratch = |local: R2rLocal| r2r_scratch(local);
    while index < N
        invariant
            index <= N,
            room is Some,
            route.stages@.len() == N,
            route.wf(),
            forall|asked: AxisR2rKind, n: usize| #[trigger] planner.requires((asked, n)),
            stages@.len() == index,
            locals@.len() == index,
            stages_wf(stages@),
            forall|i: int|
                0 <= i < index ==> {
                    &&& (#[trigger] stages@[i]).axis == N - 1 - i
                    &&& stages@[i].input == route.stages@[i]
                    &&& stages@[i].output == route.stages@[i]
                },
            forall|i: int|
                0 <= i < index ==> r2r_stage_at(
                    *planner,
                    route.stages@,
                    global_shape@,
                    kinds@,
                    i,
                    Ok(#[trigger] locals@[i]),
                ),
            embedding == (|local: R2rLocal| r2r_embedding(local)),
            scratch == (|local: R2rLocal| r2r_scratch(local)),
            embedding_len == largest_of(locals@.map_values(embedding)),
            fft_scratch_len == largest_of(locals@.map_values(scratch)),
        decreases N - index,
    {
        let axis: usize = N - 1 - index;
        let pencil: Pencil<N, M> = route.stages[index];
        proof {
            assert(route.stages@[index as int].wf());
        }
        let local: R2rLocal = match prepare_r2r_stage(
            planner,
            &pencil,
            axis,
            global_shape[axis],
            kinds[axis],
        ) {
            Ok(local) => local,
            Err(error) => {
                assert(r2r_stages_before(
                    *planner,
                    route.stages@,
                    global_shape@,
                    kinds@,
                    index as int,
                )) by {
                    assert(locals@.len() == index);
                }
                assert(r2r_stage_at(
                    *planner,
                    route.stages@,
                    global_shape@,
                    kinds@,
                    index as int,
                    Err(error),
                ));
                return Err(error);
            },
        };
        let ghost earlier = locals@;
        embedding_len = max_len(embedding_len, local.embedding_len());
        fft_scratch_len = max_len(fft_scratch_len, local.scratch_len());
        stages.push(Stage { axis, input: pencil, output: pencil });
        locals.push(local);
        proof {
            lemma_largest_map_push(earlier, local, embedding);
            lemma_largest_map_push(earlier, local, scratch);
        }
        index += 1;
    }
    Ok(R2rStages { stages, locals, embedding_len, fft_scratch_len })
}

/// Prepares the stages of a real-to-real plan: stage `i` transforms axis `N - 1 - i` where it lies.
/// The first stage that cannot be prepared decides the error. Whether there is room for them rests
/// on the machine; [`prepare_r2r_stages_in`] says what follows for each answer.
pub fn prepare_r2r_stages<P: Fn(AxisR2rKind, usize) -> Result<LocalR2rPlan, LocalR2rError>, const N: usize, const M: usize>(
    planner: &P,
    route: &RouteCandidate<N, M>,
    global_shape: &[usize; N],
    kinds: &[Option<AxisR2rKind>; N],
) -> (result: Result<R2rStages<N, M>, R2rError>)
    requires
        route.wf(),
        forall|asked: AxisR2rKind, n: usize| #[trigger] planner.requires((asked, n)),
    ensures
        route.stages@.len() != N ==> result == Err::<R2rStages<N, M>, R2rError>(
            R2rError::Fft(FftError::PreparationFailed),
        ),
        route.stages@.len() == N ==> match result {
            Ok(prepared) => {
                &&& prepared.stages@.len() == N
                &&& prepared.locals@.len() == N
                &&& stages_wf(prepared.stages@)
                &&& forall|i: int|
                    0 <= i < N ==> {
                        &&& (#[trigger] prepared.stages@[i]).axis == N - 1 - i
                        &&& prepared.stages@[i].input == route.stages@[i]
                        &&& prepared.stages@[i].output == route.stages@[i]
                    }
                &&& forall|i: int|
                    0 <= i < N ==> r2r_stage_at(
                        *planner,
                        route.stages@,
                        global_shape@,
                        kinds@,
                        i,
                        Ok(#[trigger] prepared.locals@[i]),
                    )
                &&& prepared.embedding_len == largest_of(
                    prepared.locals@.map_values(|local: R2rLocal| r2r_embedding(local)),
                )
                &&& prepared.fft_scratch_len == largest_of(
                    prepared.locals@.map_values(|local: R2rLocal| r2r_scratch(local)),
                )
            },
            Err(error) => {
                ||| error == R2rError::Fft(FftError::AllocationFailed { required: N })
                ||| exists|i: int|
                    0 <= i < N && #[trigger] r2r_stage_at(
                        *planner,
                        route.stages@,
                        global_shape@,
                        kinds@,
                        i,
                        Err(error),
                    ) && r2r_stages_before(*planner, route.stages@, global_shape@, kinds@, i)
            },
        },
{
    let room: Option<Vec<Stage<N, M>>> = room_for(N);
    prepare_r2r_stages_in(room, planner, route, global_shape, kinds)
}

/// The stages of a real-to-complex plan.
#[derive(Debug)]
pub struct StagePreparation<const N: usize, const M: usize> {
    /// Where each stage works.
    pub stages: Vec<Stage<N, M>>,
    /// Its kernel.
    pub locals: Vec<LocalTransform>,
    /// Elements of the scratch buffer.
    pub fft_scratch_len: usize,
}

/// The layouts and extents of a plan before its boundary and behind it.
#[derive(Debug)]
pub struct RoutePair<const N: usize, const M: usize> {
    /// The route of the original extents.
    pub original_route: RouteCandidate<N, M>,
    /// The route of the reduced extents.
    pub reduced_route: RouteCandidate<N, M>,
    /// The original extents.
    pub original_shape: [usize; N],
    /// The reduced extents.
    pub reduced_shape: [usize; N],
}

impl<const N: usize, const M: usize> RoutePair<N, M> {
    /// All layouts are well formed.
    pub open spec fn wf(&self) -> bool {
        self.original_route.wf() && self.reduced_route.wf()
    }

    /// Both routes have a layout for every axis.
    pub open spec fn complete(&self) -> bool {
        self.original_route.stages@.len() == N && self.reduced_route.stages@.len() == N
    }

    /// Where stage `index` works: on the original layouts up to the boundary, behind it on the
    /// reduced ones, and at the boundary from one to the other.
    pub open spec fn stage_at(&self, boundary: int, index: int) -> Stage<N, M> {
        Stage {
            axis: (N - 1 - index) as usize,
            input: if index <= boundary {
                self.original_route.stages@[index]
            } else {
                self.reduced_route.stages@[index]
            },
            output: if index < boundary {
                self.original_route.stages@[index]
            } else {
                self.reduced_route.stages@[index]
            },
        }
    }

    /// Returns where stage `index` works.
    pub fn stage(&self, boundary: usize, index: usize) -> (stage: Stage<N, M>)
        requires
            self.wf(),
            self.complete(),
            index < N,
        ensures
            stage == self.stage_at(boundary as int, index as int),
            stage.wf(),
    {
        proof {
            assert(self.original_route.stages@[index as int].wf());
            assert(self.reduced_route.stages@[index as int].wf());
        }
        Stage {
            axis: N - 1 - index,
            input: if index <= boundary {
                self.original_route.stages[index]
            } else {
                self.reduced_route.stages[index]
            },
            output: if index < boundary {
                self.original_route.stages[index]
            } else {
                self.reduced_route.stages[index]
            },
        }
    }
}

/// What preparing stage `index` of a real-to-complex plan comes to: nothing is transformed before
/// the boundary, and behind it the selected axes get a complex kernel.
pub open spec fn r2c_stage_at<P: Fn(usize) -> Result<LocalC2cPlan, LocalC2cError>, Q: Fn(usize) -> Result<LocalR2cPlan, LocalR2cError>, const N: usize, const M: usize>(
    complex_planner: P,
    real_planner: Q,
    routes: RoutePair<N, M>,
    selection: AxisSelection<N>,
    boundary: int,
    index: int,
    outcome: Result<LocalTransform, R2cError>,
) -> bool {
    let axis = N - 1 - index;
    let len = if index <= boundary {
        routes.original_shape@[axis]
    } else {
        routes.reduced_shape@[axis]
    };
    if !axis_is_local(routes.stage_at(boundary, index).input, axis, len as int) {
        outcome == Err::<LocalTransform, R2cError>(R2cError::Fft(FftError::PreparationFailed))
    } else if index == boundary {
        match outcome {
            Ok(LocalTransform::RealComplex(plan)) => real_planner.ensures((len,), Ok(plan)),
            Err(R2cError::LocalR2c(error)) => real_planner.ensures((len,), Err(error)),
            _ => false,
        }
    } else if index > boundary && selection.spec_contains(axis) {
        match outcome {
            Ok(LocalTransform::Complex(plan)) => complex_planner.ensures((len,), Ok(plan)),
            Err(R2cError::Fft(FftError::LocalC2c(error))) => complex_planner.ensures(
                (len,),
                Err(error),
            ),
            _ => false,
        }
    } else {
        outcome == Ok::<LocalTransform, R2cError>(LocalTransform::Identity)
    }
}

/// The stages before `index` of a real-to-complex plan can be prepared.
pub open spec fn r2c_stages_before<P: Fn(usize) -> Result<LocalC2cPlan, LocalC2cError>, Q: Fn(usize) -> Result<LocalR2cPlan, LocalR2cError>, const N: usize, const M: usize>(
    complex_planner: P,
    real_planner: Q,
    routes: RoutePair<N, M>,
    selection: AxisSelection<N>,
    boundary: int,
    index: int,
) -> bool {
    exists|locals: Seq<LocalTransform>|
        #![trigger locals.len()]
        locals.len() == index && forall|j: int|
            0 <= j < index ==> r2c_stage_at(
                complex_planner,
                real_planner,
                routes,
                selection,
                boundary,
                j,
                Ok(#[trigger] locals[j]),
            )
}

/// Prepares the kernel of one stage of a real-to-complex plan.
fn prepare_r2c_stage<P: Fn(usize) -> Result<LocalC2cPlan, LocalC2cError>, Q: Fn(usize) -> Result<LocalR2cPlan, LocalR2cError>, const N: usize, const M: usize>(
    complex_planner: &P,
    real_planner: &Q,
    routes: &RoutePair<N, M>,
    selection: &AxisSelection<N>,
    boundary: usize,
    index: usize,
) -> (result: Result<LocalTransform, R2cError>)
    requires
        routes.wf(),
        routes.complete(),
        index < N,
        forall|n: usize| #[trigger] complex_planner.requires((n,)),
        forall|n: usize| #[trigger] real_planner.requires((n,)),
    ensures
        r2c_stage_at(
            *complex_planner,
            *real_planner,
            *routes,
            *selection,
            boundary as int,
            index as int,
            result,
        ),
{
    let stage: Stage<N, M> = routes.stage(boundary, index);
    let axis: usize = N - 1 - index;
    let len: usize = if index <= boundary {
        routes.original_shape[axis]
    } else {
        routes.reduced_shape[axis]
    };
    if !stage_axis_local(&stage.input, axis, len) {
        return Err(R2cError::Fft(FftError::PreparationFailed));
    }
    if index == boundary {
        match real_planner(len) {
            Ok(plan) => Ok(LocalTransform::RealComplex(plan)),
            Err(error) => Err(R2cError::LocalR2c(error)),
        }
    } else if index > boundary && selection.contains(axis) {
        match complex_planner(len) {
            Ok(plan) => Ok(LocalTransform::Complex(plan)),
            Err(error) => Err(R2cError::Fft(FftError::LocalC2c(error))),
        }
    } else {
        Ok(LocalTransform::Identity)
    }
}

/// Prepares the stages of a real-to-complex plan whose boundary lies on `reduction_axis`. The
/// first stage that cannot be prepared decides the error.
/// The stages are listed in `room`.
pub fn prepare_r2c_stages_in<P: Fn(usize) -> Result<LocalC2cPlan, LocalC2cError>, Q: Fn(usize) -> Result<LocalR2cPlan, LocalR2cError>, const N: usize, const M: usize>(
    room: Option<Vec<Stage<N, M>>>,
    complex_planner: &P,
    real_planner: &Q,
    routes: &RoutePair<N, M>,
    reduction_axis: usize,
    selection: &AxisSelection<N>,
) -> (result: Result<StagePreparation<N, M>, R2cError>)
    requires
        is_empty_room(room),
        reduction_axis < N,
        routes.wf(),
        forall|n: usize| #[trigger] complex_planner.requires((n,)),
        forall|n: usize| #[trigger] real_planner.requires((n,)),
    ensures
        !routes.complete() ==> result == Err::<StagePreparation<N, M>, R2cError>(
            R2cError::Fft(FftError::PreparationFailed),
        ),
        routes.complete() && room is None ==> result == Err::<StagePreparation<N, M>, R2cError>(
            R2cError::Fft(FftError::AllocationFailed { required: N }),
        ),
        routes.complete() && room is Some ==> match result {
            Ok(prepared) => {
                &&& prepared.stages@.len() == N
                &&& prepared.locals@.len() == N
                &&& stages_wf(prepared.stages@)
                &&& forall|i: int|
                    0 <= i < N ==> #[trigger] prepared.stages@[i] == routes.stage_at(
                        N - 1 - reduction_axis,
                        i,
                    )
                &&& forall|i: int|
                    0 <= i < N ==> r2c_stage_at(
                        *complex_planner,
                        *real_planner,
                        *routes,
                        *selection,
                        N - 1 - reduction_axis,
                        i,
                        Ok(#[trigger] prepared.locals@[i]),
                    )
                &&& prepared.fft_scratch_len == largest_of(
                    prepared.locals@.map_values(|local: LocalTransform| local.spec_scratch_len()),
                )
            },
            Err(error) => exists|i: int|
                0 <= i < N && #[trigger] r2c_stage_at(
                    *complex_planner,
                    *real_planner,
                    *routes,
                    *selection,
                    N - 1 - reduction_axis,
                    i,
                    Err(error),
                ) && r2c_stages_before(
                    *complex_planner,
                    *real_planner,
                    *routes,
                    *selection,
                    N - 1 - reduction_axis,
                    i,
                ),
        },
{
    if routes.original_route.stages.len() != N || routes.reduced_route.stages.len() != N {
        return Err(R2cError::Fft(FftError::PreparationFailed));
    }
    let boundary: usize = N - 1 - reduction_axis;
    let mut stages: Vec<Stage<N, M>> = match room {
        Some(stages) => stages,
        None => {
            return Err(R2cError::Fft(FftError::AllocationFailed { required: N }));
        },
    };
    let mut locals: Vec<LocalTransform> = Vec::new();
    let mut fft_scratch_len: usize = 0;
    let mut index: usize = 0;
    let ghost scratch = |local: LocalTransform| local.spec_scratch_len();
    while index < N
        invariant
            index <= N,
            room is Some,
            boundary == N - 1 - reduction_axis,
            routes.wf(),
            routes.complete(),
            forall|n: usize| #[trigger] complex_planner.requires((n,)),
            forall|n: usize| #[trigger] real_planner.requires((n,)),
            stages@.len() == index,
            locals@.len() == index,
            stages_wf(stages@),
            forall|i: int|
                0 <= i < index ==> #[trigger] stages@[i] == routes.stage_at(boundary as int, i),
            forall|i: int|
                0 <= i < index ==> r2c_stage_at(
                    *complex_planner,
                    *real_planner,
                    *routes,
                    *selection,
                    boundary as int,
                    i,
                    Ok(#[trigger] locals@[i]),
                ),
            scratch == (|local: LocalTransform| local.spec_scratch_len()),
            fft_scratch_len == largest_of(locals@.map_values(scratch)),
        decreases N - index,
    {
        let local: LocalTransform = match prepare_r2c_stage(
            complex_planner,
            real_planner,
            routes,
            selection,
            boundary,
            index,
        ) {
            Ok(local) => local,
            Err(error) => {
                assert(r2c_stages_before(
                    *complex_planner,
                    *real_planner,
                    *routes,
                    *selection,
                    boundary as int,
                    index as int,
                )) by {
                    assert(locals@.len() == index);
                }
                return Err(error);
            },
        };
        let ghost earlier = locals@;
        fft_scratch_len = max_len(fft_scratch_len, local.scratch_len());
        stages.push(routes.stage(boundary, index));
        locals.push(local);
        proof {
            lemma_largest_map_push(earlier, local, scratch);
        }
        index += 1;
    }
    Ok(StagePreparation { stages, locals, fft_scratch_len })
}

/// Prepares the stages of a real-to-complex plan whose boundary lies on `reduction_axis`. The first
/// stage that cannot be prepared decides the error. Whether there is room for them rests on the
/// machine; [`prepare_r2c_stages_in`] says what follows for each answer.
pub fn prepare_r2c_stages<P: Fn(usize) -> Result<LocalC2cPlan, LocalC2cError>, Q: Fn(usize) -> Result<LocalR2cPlan, LocalR2cError>, const N: usize, const M: usize>(
    complex_planner: &P,
    real_planner: &Q,
    routes: &RoutePair<N, M>,
    reduction_axis: usize,
    selection: &AxisSelection<N>,
) -> (result: Result<StagePreparation<N, M>, R2cError>)
    requires
        reduction_axis < N,
        routes.wf(),
        forall|n: usize| #[trigger] complex_planner.requires((n,)),
        forall|n: usize| #[trigger] real_planner.requires((n,)),
    ensures
        !routes.complete() ==> result == Err::<StagePreparation<N, M>, R2cError>(
            R2cError::Fft(FftError::PreparationFailed),
        ),
        routes.complete() ==> match result {
            Ok(prepared) => {
                &&& prepared.stages@.len() == N
                &&& prepared.locals@.len() == N
                &&& stages_wf(prepared.stages@)
                &&& forall|i: int|
                    0 <= i < N ==> #[trigger] prepared.stages@[i] == routes.stage_at(
                        N - 1 - reduction_axis,
                        i,
                    )
                &&& forall|i: int|
                    0 <= i < N ==> r2c_stage_at(
                        *complex_planner,
                        *real_planner,
                        *routes,
                        *selection,
                        N - 1 - reduction_axis,
                        i,
                        Ok(#[trigger] prepared.locals@[i]),
                    )
                &&& prepared.fft_scratch_len == largest_of(
                    prepared.locals@.map_values(|local: LocalTransform| local.spec_scratch_len()),
                )
            },
            Err(error) => {
                ||| error == R2cError::Fft(FftError::AllocationFailed { required: N })
                ||| exists|i: int|
                    0 <= i < N && #[trigger] r2c_stage_at(
                        *complex_planner,
                        *real_planner,
                        *routes,
                        *selection,
                        N - 1 - reduction_axis,
                        i,
                        Err(error),
                    ) && r2c_stages_before(
                        *complex_planner,
                        *real_planner,
                        *routes,
                        *selection,
                        N - 1 - reduction_axis,
                        i,
                    )
            },
        },
{
    let room: Option<Vec<Stage<N, M>>> = room_for(N);
    prepare_r2c_stages_in(room, complex_planner, real_planner, routes, reduction_axis, selection)
}

} // verus!
