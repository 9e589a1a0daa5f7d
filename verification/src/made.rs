//! What plans make for their executions: workspaces, arrays and buffers that hold what is needed.

use vstd::prelude::*;

use crate::accepted::alike;
use crate::accepted::enough_buffers;
use crate::accepted::holds_all;
use crate::accepted::holds_one;
use crate::array::ManyPencilArray;
use crate::array::PencilArray;
use crate::error::BackendInitError;
use crate::error::FftError;
use crate::error::LocalC2cError;
use crate::error::LocalR2cError;
use crate::error::LocalR2rError;
use crate::handoff::HalfComplexStorage;
use crate::handoff::SharedStorage;
use crate::layout::C2cState;
use crate::layout::ExtraShape;
use crate::layout::Pencil;
use crate::layout::R2cState;
use crate::layout::R2rState;
use crate::layout::TransposeMethod;
use crate::local::AxisR2rKind;
use crate::local::BackendChoice;
use crate::local::LocalC2cPlan;
use crate::local::LocalR2cPlan;
use crate::local::LocalR2rPlan;
use crate::local::LocalTransform;
use crate::local::MixedComplexLocal;
use crate::local::MixedR2cStageLocal;
use crate::local::MixedR2rLocal;
use crate::local::MixedRealLocal;
use crate::local::R2rKind;
use crate::local::R2rLocal;
use crate::mixed_build::MixedAsk;
use crate::mixed_build::MixedFacts;
use crate::mixed_c2c::fresh_mixed_c2c_array;
use crate::mixed_c2c::fresh_mixed_c2c_buffers;
use crate::mixed_c2c::fresh_mixed_c2c_workspace;
use crate::mixed_c2c::MixedC2cCore;
use crate::mixed_c2c::MixedC2cInPlaceArray;
use crate::mixed_c2c::MixedC2cInPlaceWorkspace;
use crate::mixed_c2c::MixedC2cWorkspace;
use crate::mixed_c2c_build::mixed_c2c_built;
use crate::mixed_c2c_build::mixed_c2c_built_in;
use crate::mixed_prepare::Planners;
use crate::mixed_r2c::MixedR2cCore;
use crate::mixed_r2c::MixedR2cInPlaceArray;
use crate::mixed_r2c::MixedR2cInPlaceWorkspace;
use crate::mixed_r2c::MixedR2cWorkspace;
use crate::mixed_r2c_alloc::fresh_mixed_r2c_array;
use crate::mixed_r2c_alloc::fresh_mixed_r2c_in_place;
use crate::mixed_r2c_alloc::fresh_mixed_r2c_workspace;
use crate::mixed_r2c_build::mixed_r2c_lens_hold;
use crate::prepare::largest_of;
use crate::prepare::lemma_largest_of;
use crate::prepare::r2r_embedding;
use crate::prepare::r2r_scratch;
use crate::prepare::RouteCandidate;
use crate::r2c::R2cInPlaceArray;
use crate::r2c::R2cInPlaceWorkspace;
use crate::r2c::R2cWorkspace;
use crate::r2c::TransformPlanCore;
use crate::r2c_alloc::fresh_r2c_array;
use crate::r2c_alloc::fresh_r2c_buffers;
use crate::r2c_alloc::fresh_r2c_workspace;
use crate::r2r::fresh_r2r_array;
use crate::r2r::fresh_r2r_in_place_workspace;
use crate::r2r::fresh_r2r_workspace;
use crate::r2r::R2rCore;
use crate::r2r::R2rInPlaceArray;
use crate::r2r::R2rInPlaceWorkspace;
use crate::r2r::R2rWorkspace;
use crate::r2r_build::r2r_built;
use crate::r2r_build::r2r_built_in;
use crate::r2r_build::R2rFacts;
use crate::registry::distinct_layouts;
use crate::registry::has_layout;
use crate::registry::inputs_of;
use crate::registry::largest_local_len;
use crate::registry::lemma_distinct_layouts;
use crate::registry::lemma_largest_local_len;
use crate::registry::outputs_of;
use crate::registry::stages_wf;
use crate::registry::Stage;
use crate::request::PlanRequest;
use crate::rooms::Rooms;
use crate::scalar::FftReal;
use crate::scalar::R2rScalar;
use crate::shared::fresh_shared;
use crate::shared::lemma_distinct_largest;
use crate::transition::TransitionPlan;
use crate::workspace::filled_array;
use crate::workspace::freshly_registered;
use crate::world::World;

verus! {

/// An array that was made for a list of layouts holds each of them, has room for each of them
/// with all extra elements, starts in the first of them, and holds one value everywhere.
pub open spec fn made_for<T, const N: usize, const M: usize>(
    array: ManyPencilArray<T, N, M>,
    layouts: Seq<Pencil<N, M>>,
    extra_shape: ExtraShape,
    value: T,
) -> bool {
    &&& holds_all(array.pencils@, layouts)
    &&& array.active == Some(0usize)
    &&& array.pencils@.len() > 0
    &&& alike(array.pencils@[0], layouts[0])
    &&& array.extra_shape.dimensions@ == extra_shape.dimensions@
    &&& array.extra_shape.element_count == extra_shape.element_count
    &&& forall|i: int|
        0 <= i < array.pencils@.len() ==> (#[trigger] array.pencils@[i]).local_len
            * extra_shape.element_count <= array.storage@.len()
    &&& forall|i: int| 0 <= i < array.storage@.len() ==> #[trigger] array.storage@[i] == value
}

proof fn lemma_held<const N: usize, const M: usize>(held: Seq<Pencil<N, M>>, layouts: Seq<Pencil<N, M>>)
    requires
        forall|i: int| 0 <= i < layouts.len() ==> has_layout(held, #[trigger] layouts[i]),
    ensures
        holds_all(held, layouts),
{
    assert forall|i: int| 0 <= i < layouts.len() implies holds_one(held, #[trigger] layouts[i]) by {
        let wanted = layouts[i];
        let j = choose|j: int| 0 <= j < held.len() && (#[trigger] held[j]).spec_same_layout(&wanted);
        assert(alike(held[j], wanted));
    }
}

proof fn lemma_roomy<const N: usize, const M: usize>(held: Seq<Pencil<N, M>>, extra: int, len: int)
    requires
        len == largest_local_len(held) * extra,
        0 <= extra,
    ensures
        forall|i: int| 0 <= i < held.len() ==> (#[trigger] held[i]).local_len * extra <= len,
{
    lemma_largest_local_len(held);
    let largest = largest_local_len(held) as int;
    assert forall|i: int| 0 <= i < held.len() implies (#[trigger] held[i]).local_len * extra <= len by {
        let own = held[i].local_len as int;
        assert(own * extra <= largest * extra) by (nonlinear_arith)
            requires
                own <= largest,
                0 <= extra,
        ;
    }
}

proof fn lemma_made<T, const N: usize, const M: usize>(
    array: ManyPencilArray<T, N, M>,
    layouts: Seq<Pencil<N, M>>,
    extra_shape: ExtraShape,
    value: T,
)
    requires
        freshly_registered(array, distinct_layouts(layouts), extra_shape, value),
        layouts.len() > 0,
    ensures
        made_for(array, layouts, extra_shape, value),
{
    let held = array.pencils@;
    assert(holds_all(held, layouts) && held.len() > 0 && held[0] == layouts[0]) by {
        lemma_distinct_layouts(layouts);
        lemma_held(held, layouts);
    }
    lemma_roomy(held, extra_shape.element_count as int, array.storage@.len() as int);
}

/// Everything that a real-to-real or Hartley plan makes is its own: a workspace with every
/// layout that the stages write and buffers as long as the plan needs them, and an array that
/// starts as an input in the layout of the first stage, all zero.
pub proof fn law_r2r_makes<T: R2rScalar, const N: usize, const M: usize>(
    core: R2rCore<N, M>,
    workspace: R2rWorkspace<T, N, M>,
    array: R2rInPlaceArray<T, N, M>,
    in_place: R2rInPlaceWorkspace<T, N, M>,
)
    requires
        core.wf(),
        fresh_r2r_workspace(core, workspace),
        fresh_r2r_array(core, array),
        fresh_r2r_in_place_workspace(core, in_place),
    ensures
        workspace.core == core.id,
        array.core == core.id,
        in_place.core == core.id,
        array.state == R2rState::Input,
        made_for(
            workspace.intermediate,
            Seq::new(core.stages@.len(), |i: int| core.stages@[i].output),
            core.extra_shape,
            T::zero_value(),
        ),
        made_for(
            array.array,
            Seq::new(core.stages@.len(), |i: int| core.stages@[i].output),
            core.extra_shape,
            T::zero_value(),
        ),
        workspace.transpose.send@.len() == core.lens.send,
        workspace.transpose.receive@.len() == core.lens.receive,
        workspace.embedding_line@.len() == core.embedding_len,
        workspace.fft_scratch@.len() == core.lens.fft_scratch,
        workspace.line_buffer@.len() == core.strided_line_len,
        in_place.transpose.send@.len() == core.lens.send,
        in_place.transpose.receive@.len() == core.lens.receive,
        in_place.embedding_line@.len() == core.embedding_len,
        in_place.fft_scratch@.len() == core.lens.fft_scratch,
        in_place.line_buffer@.len() == core.strided_line_len,
{
    let layouts = Seq::new(core.stages@.len(), |i: int| core.stages@[i].output);
    assert(outputs_of(core.stages@.skip(0)) =~= layouts);
    lemma_made(workspace.intermediate, layouts, core.extra_shape, T::zero_value());
    lemma_made(array.array, layouts, core.extra_shape, T::zero_value());
}

/// Everything that a mixed complex plan makes is its own, and an array starts as an input, all
/// zero.
pub proof fn law_mixed_c2c_makes<R: FftReal, const N: usize, const M: usize>(
    core: MixedC2cCore<N, M>,
    workspace: MixedC2cWorkspace<R, N, M>,
    array: MixedC2cInPlaceArray<R, N, M>,
    in_place: MixedC2cInPlaceWorkspace<R, N, M>,
)
    requires
        core.wf(),
        fresh_mixed_c2c_workspace(core, workspace),
        fresh_mixed_c2c_array(core, array),
        fresh_mixed_c2c_buffers(core, in_place),
    ensures
        workspace.core == core.id,
        array.core == core.id,
        in_place.core == core.id,
        array.state == C2cState::Input,
        made_for(
            workspace.intermediate,
            Seq::new(core.stages@.len(), |i: int| core.stages@[i].output),
            core.extra_shape,
            [R::zero_bits(), R::zero_bits()],
        ),
        made_for(
            array.array,
            Seq::new(core.stages@.len(), |i: int| core.stages@[i].output),
            core.extra_shape,
            [R::zero_bits(), R::zero_bits()],
        ),
        workspace.transpose.send@.len() == core.lens.send,
        workspace.transpose.receive@.len() == core.lens.receive,
        workspace.embedding_line@.len() == core.embedding_len,
        workspace.fft_scratch@.len() == core.lens.fft_scratch,
        workspace.line_buffer@.len() == core.strided_line_len,
        in_place.transpose.send@.len() == core.lens.send,
        in_place.transpose.receive@.len() == core.lens.receive,
        in_place.embedding_line@.len() == core.embedding_len,
        in_place.fft_scratch@.len() == core.lens.fft_scratch,
        in_place.line_buffer@.len() == core.strided_line_len,
{
    let layouts = Seq::new(core.stages@.len(), |i: int| core.stages@[i].output);
    assert(outputs_of(core.stages@) =~= layouts);
    lemma_made(workspace.intermediate, layouts, core.extra_shape, [R::zero_bits(), R::zero_bits()]);
    lemma_made(array.array, layouts, core.extra_shape, [R::zero_bits(), R::zero_bits()]);
}

/// The shared allocation of a half-complex plan starts with real values, all zero, in the
/// layouts up to the boundary, and knows the layouts from the boundary on.
pub open spec fn made_shared<R: FftReal, const N: usize, const M: usize>(
    shared: SharedStorage<R, N, M>,
    stages: Seq<Stage<N, M>>,
    boundary: int,
    extra_shape: ExtraShape,
) -> bool {
    &&& shared.storage matches Some(HalfComplexStorage::Real(values))
    &&& made_for(
        values,
        Seq::new((boundary + 1) as nat, |i: int| stages[i].input),
        extra_shape,
        R::zero_bits(),
    )
    &&& shared.real_pencils is None
    &&& shared.complex_pencils matches Some(pencils)
    &&& holds_all(
        pencils@,
        Seq::new((stages.len() - boundary) as nat, |i: int| stages[boundary + i].output),
    )
    &&& shared.real_storage_len == values.storage@.len()
}

proof fn lemma_made_shared<R: FftReal, const N: usize, const M: usize>(
    shared: SharedStorage<R, N, M>,
    stages: Seq<Stage<N, M>>,
    boundary: usize,
    extra_shape: ExtraShape,
)
    requires
        fresh_shared(shared, stages, boundary, extra_shape),
        boundary < stages.len(),
        stages_wf(stages),
    ensures
        made_shared(shared, stages, boundary as int, extra_shape),
{
    let reals = Seq::new((boundary + 1) as nat, |i: int| stages[i].input);
    let complexes = Seq::new((stages.len() - boundary) as nat, |i: int| stages[boundary + i].output);
    assert(inputs_of(stages.take(boundary + 1)) =~= reals);
    assert(outputs_of(stages.skip(boundary as int)) =~= complexes);
    let values = shared.storage->0->Real_0;
    lemma_made(values, reals, extra_shape, R::zero_bits());
    let pencils = shared.complex_pencils->0;
    assert(holds_all(pencils@, complexes)) by {
        lemma_distinct_layouts(complexes);
        lemma_held(pencils@, complexes);
    }
    assert forall|i: int| 0 <= i < reals.len() implies (#[trigger] reals[i]).wf() by {
        assert(stages[i].wf());
    }
    lemma_distinct_largest(reals);
    assert(values.storage.len() == values.storage@.len());
}

/// Everything that a real-to-complex plan makes is its own; the values before the boundary and
/// those from it on have their own layouts, and an array starts with real values, all zero.
pub proof fn law_r2c_makes<R: FftReal, const N: usize, const M: usize>(
    core: TransformPlanCore<N, M>,
    workspace: R2cWorkspace<R, N, M>,
    array: R2cInPlaceArray<R, N, M>,
    in_place: R2cInPlaceWorkspace<R, N, M>,
)
    requires
        core.wf(),
        fresh_r2c_workspace(core, workspace),
        fresh_r2c_array(core, array),
        fresh_r2c_buffers(core, in_place),
    ensures
        workspace.core == core.id,
        array.core == core.id,
        in_place.core == core.id,
        array.state == R2cState::RealInput,
        made_shared(array.shared, core.stages@, core.boundary as int, core.extra_shape),
        made_for(
            workspace.intermediate,
            Seq::new((core.stages@.len() - core.boundary) as nat, |i: int| core.stages@[core.boundary + i].output),
            core.extra_shape,
            [R::zero_bits(), R::zero_bits()],
        ),
        workspace.real_intermediate is Some <==> core.boundary > 0,
        workspace.real_intermediate matches Some(reals) ==> made_for(
            reals,
            Seq::new((core.boundary + 1) as nat, |i: int| core.stages@[i].input),
            core.extra_shape,
            R::zero_bits(),
        ),
        workspace.transpose.send@.len() == core.lens.send,
        workspace.transpose.receive@.len() == core.lens.receive,
        workspace.fft_scratch@.len() == core.lens.fft_scratch,
        workspace.real_line@.len() == core.plan().real_len,
        workspace.complex_line@.len() == core.plan().complex_len,
        workspace.complex_strided_line@.len() == core.strided_line_len,
        in_place.transpose.send@.len() == core.lens.send,
        in_place.transpose.receive@.len() == core.lens.receive,
        in_place.fft_scratch@.len() == core.lens.fft_scratch,
        in_place.real_line@.len() == core.plan().real_len,
        in_place.complex_source_line@.len() == core.plan().complex_len,
        in_place.complex_line@.len() == core.plan().complex_len,
        in_place.complex_strided_line@.len() == core.strided_line_len,
{
    let stages = core.stages@;
    let complexes = Seq::new((stages.len() - core.boundary) as nat, |i: int| stages[core.boundary + i].output);
    let reals = Seq::new((core.boundary + 1) as nat, |i: int| stages[i].input);
    assert(outputs_of(stages.skip(core.boundary as int)) =~= complexes);
    assert(inputs_of(stages.take(core.boundary + 1)) =~= reals);
    lemma_made(workspace.intermediate, complexes, core.extra_shape, [R::zero_bits(), R::zero_bits()]);
    if let Some(values) = workspace.real_intermediate {
        lemma_made(values, reals, core.extra_shape, R::zero_bits());
    }
    lemma_made_shared(array.shared, stages, core.boundary, core.extra_shape);
}

/// Everything that a mixed real-to-complex plan makes is its own; the values before the
/// boundary and those from it on have their own layouts, and an array starts with real values,
/// all zero.
pub proof fn law_mixed_r2c_makes<R: FftReal, const N: usize, const M: usize>(
    core: MixedR2cCore<N, M>,
    workspace: MixedR2cWorkspace<R, N, M>,
    array: MixedR2cInPlaceArray<R, N, M>,
    in_place: MixedR2cInPlaceWorkspace<R, N, M>,
)
    requires
        core.wf(),
        fresh_mixed_r2c_workspace(core, workspace),
        fresh_mixed_r2c_array(core, array),
        fresh_mixed_r2c_in_place(core, in_place),
    ensures
        workspace.core == core.id,
        array.core == core.id,
        in_place.core == core.id,
        array.state == R2cState::RealInput,
        made_shared(array.shared, core.stages@, core.boundary as int, core.extra_shape),
        made_for(
            workspace.intermediate,
            Seq::new((core.stages@.len() - core.boundary) as nat, |i: int| core.stages@[core.boundary + i].output),
            core.extra_shape,
            [R::zero_bits(), R::zero_bits()],
        ),
        workspace.real_intermediate is Some <==> core.boundary > 0,
        workspace.real_intermediate matches Some(reals) ==> made_for(
            reals,
            Seq::new((core.boundary + 1) as nat, |i: int| core.stages@[i].input),
            core.extra_shape,
            R::zero_bits(),
        ),
        enough_buffers(core, workspace.buffers),
        enough_buffers(core, in_place.buffers),
{
    let stages = core.stages@;
    let complexes = Seq::new((stages.len() - core.boundary) as nat, |i: int| stages[core.boundary + i].output);
    let reals = Seq::new((core.boundary + 1) as nat, |i: int| stages[i].input);
    assert(outputs_of(stages.skip(core.boundary as int)) =~= complexes);
    assert(inputs_of(stages.take(core.boundary + 1)) =~= reals);
    lemma_made(workspace.intermediate, complexes, core.extra_shape, [R::zero_bits(), R::zero_bits()]);
    if let Some(values) = workspace.real_intermediate {
        lemma_made(values, reals, core.extra_shape, R::zero_bits());
    }
    lemma_made_shared(array.shared, stages, core.boundary, core.extra_shape);
}

/// An array that was filled holds one value in every element of its layout, for all extra elements.
pub proof fn law_filled_array<T, const N: usize, const M: usize>(
    array: PencilArray<T, N, M>,
    pencil: Pencil<N, M>,
    extra_shape: ExtraShape,
    value: T,
    i: int,
)
    requires
        filled_array(array, pencil, extra_shape, value),
        0 <= i < pencil.local_len * extra_shape.element_count,
    ensures
        array.data@.len() == pencil.local_len * extra_shape.element_count,
        array.data@[i] == value,
        array.pencil == pencil,
        array.extra_shape.dimensions@ == extra_shape.dimensions@,
{
}

/// The buffers of a real-to-real or Hartley plan hold what each kernel needs.
pub proof fn law_r2r_buffers_hold<H: Fn([u64; 5]) -> bool, D: Fn(Option<Vec<u64>>, Option<usize>) -> Result<Vec<u64>, FftError>, A: Fn(bool) -> bool, P: Fn([usize; N]) -> Result<Pencil<N, M>, FftError>, Q: Fn(Pencil<N, M>, [usize; N], bool) -> Result<RouteCandidate<N, M>, FftError>, T: Fn(&Vec<Stage<N, M>>, &Vec<usize>, &ExtraShape, TransposeMethod, usize) -> Result<TransitionPlan, FftError>, K: Fn(AxisR2rKind, usize) -> Result<LocalR2rPlan, LocalR2rError>, const N: usize, const M: usize>(
    world: World<H, D, A, P, Q, T>,
    planner: K,
    facts: R2rFacts<N, M>,
    request: PlanRequest<[Option<R2rKind>; N], N, M>,
    core: R2rCore<N, M>,
    i: int,
)
    requires
        r2r_built(world, planner, facts, request, core),
        core.embedding_len == largest_of(core.locals@.map_values(|local: R2rLocal| r2r_embedding(local))),
        0 <= i < core.locals@.len(),
    ensures
        match core.locals@[i] {
            R2rLocal::Identity => true,
            R2rLocal::Transform(plan) => plan.scratch_len <= core.lens.fft_scratch && plan.embedding_len
                <= core.embedding_len,
            R2rLocal::Hartley(plan) => plan.scratch_len <= core.lens.fft_scratch && plan.embedding_len
                <= core.embedding_len,
        },
{
    let rooms = choose|rooms: Rooms<N, M>| #[trigger]
        r2r_built_in(world, planner, facts, request, rooms, core);
    assert(r2r_built_in(world, planner, facts, request, rooms, core));
    let scratches = core.locals@.map_values(|local: R2rLocal| r2r_scratch(local));
    let embeddings = core.locals@.map_values(|local: R2rLocal| r2r_embedding(local));
    lemma_largest_of(scratches);
    lemma_largest_of(embeddings);
    assert(scratches[i] <= core.lens.fft_scratch);
    assert(embeddings[i] <= core.embedding_len);
}

/// The buffers of a mixed complex plan hold what each kernel needs.
pub proof fn law_mixed_c2c_buffers_hold<H: Fn([u64; 5]) -> bool, D: Fn(Option<Vec<u64>>, Option<usize>) -> Result<Vec<u64>, FftError>, A: Fn(bool) -> bool, P: Fn([usize; N]) -> Result<Pencil<N, M>, FftError>, Q: Fn(Pencil<N, M>, [usize; N], bool) -> Result<RouteCandidate<N, M>, FftError>, T: Fn(&Vec<Stage<N, M>>, &Vec<usize>, &ExtraShape, TransposeMethod, usize) -> Result<TransitionPlan, FftError>, C: Fn(BackendChoice, usize, bool) -> Result<LocalC2cPlan, BackendInitError<LocalC2cError>>, K: Fn(BackendChoice, AxisR2rKind, usize) -> Result<LocalR2rPlan, BackendInitError<LocalR2rError>>, B: Fn(BackendChoice, usize) -> Result<LocalR2cPlan, BackendInitError<LocalR2cError>>, const N: usize, const M: usize>(
    world: World<H, D, A, P, Q, T>,
    planners: Planners<C, K, B>,
    facts: MixedFacts<M>,
    request: PlanRequest<MixedAsk<N>, N, M>,
    core: MixedC2cCore<N, M>,
    i: int,
)
    requires
        mixed_c2c_built(world, planners, facts, request, core),
        core.embedding_len == largest_of(
            core.locals@.map_values(|local: MixedComplexLocal| local.spec_embedding_len()),
        ),
        0 <= i < core.locals@.len(),
    ensures
        match core.locals@[i] {
            MixedComplexLocal::Identity => true,
            MixedComplexLocal::Fft(plan) => plan.scratch_len <= core.lens.fft_scratch,
            MixedComplexLocal::R2r(MixedR2rLocal::Transform(plan)) => plan.scratch_len
                <= core.lens.fft_scratch && plan.embedding_len <= core.embedding_len,
            MixedComplexLocal::R2r(MixedR2rLocal::Hartley(plan)) => plan.scratch_len
                <= core.lens.fft_scratch && plan.embedding_len <= core.embedding_len,
        },
{
    let rooms = choose|rooms: Rooms<N, M>| #[trigger]
        mixed_c2c_built_in(world, planners, facts, request, rooms, core);
    assert(mixed_c2c_built_in(world, planners, facts, request, rooms, core));
    let scratches = core.locals@.map_values(|local: MixedComplexLocal| local.spec_scratch_len());
    let embeddings = core.locals@.map_values(|local: MixedComplexLocal| local.spec_embedding_len());
    lemma_largest_of(scratches);
    lemma_largest_of(embeddings);
    assert(scratches[i] <= core.lens.fft_scratch);
    assert(embeddings[i] <= core.embedding_len);
}

/// The buffers of a real-to-complex plan hold what each kernel needs.
pub proof fn law_r2c_buffers_hold<const N: usize, const M: usize>(core: TransformPlanCore<N, M>, i: int)
    requires
        core.lens.fft_scratch == largest_of(
            core.locals@.map_values(|local: LocalTransform| local.spec_scratch_len()),
        ),
        core.real_lens.fft_scratch == core.lens.fft_scratch,
        0 <= i < core.locals@.len(),
    ensures
        match core.locals@[i] {
            LocalTransform::Identity => true,
            LocalTransform::Complex(plan) => plan.scratch_len <= core.lens.fft_scratch,
            LocalTransform::RealComplex(plan) => plan.scratch_len <= core.lens.fft_scratch
                && plan.scratch_len <= core.real_lens.fft_scratch,
        },
{
    let scratches = core.locals@.map_values(|local: LocalTransform| local.spec_scratch_len());
    lemma_largest_of(scratches);
    assert(scratches[i] <= core.lens.fft_scratch);
}

/// The buffers of a mixed real-to-complex plan hold what each kernel needs.
pub proof fn law_mixed_r2c_buffers_hold<const N: usize, const M: usize>(core: MixedR2cCore<N, M>, i: int)
    requires
        core.wf(),
        mixed_r2c_lens_hold(core),
        0 <= i < core.locals@.len(),
    ensures
        match core.locals@[i] {
            MixedR2cStageLocal::Real(MixedRealLocal::Identity) => true,
            MixedR2cStageLocal::Real(MixedRealLocal::Rfft(plan)) => plan.scratch_len
                <= core.lens.fft_scratch,
            MixedR2cStageLocal::Real(MixedRealLocal::R2r(local)) => local.plan().scratch_len
                <= core.lens.fft_scratch && local.plan().embedding_len <= core.embedding_len
                && local.plan().line_len <= core.real_line_len,
            MixedR2cStageLocal::Complex(MixedComplexLocal::Identity) => true,
            MixedR2cStageLocal::Complex(MixedComplexLocal::Fft(plan)) => plan.scratch_len
                <= core.lens.fft_scratch && plan.line_len <= core.complex_line_len,
            MixedR2cStageLocal::Complex(MixedComplexLocal::R2r(local)) => local.plan().scratch_len
                <= core.lens.fft_scratch && local.plan().embedding_len <= core.embedding_len
                && local.plan().line_len <= core.complex_line_len,
        },
{
    let embeddings = core.locals@.map_values(|local: MixedR2cStageLocal| local.spec_embedding_len());
    let scratches = core.locals@.map_values(|local: MixedR2cStageLocal| local.spec_scratch_len());
    let reals = core.locals@.map_values(|local: MixedR2cStageLocal| local.spec_real_line_len());
    let complexes = core.locals@.map_values(|local: MixedR2cStageLocal| local.spec_complex_line_len());
    lemma_largest_of(embeddings);
    lemma_largest_of(scratches);
    lemma_largest_of(reals);
    lemma_largest_of(complexes);
    assert(embeddings[i] <= core.embedding_len);
    assert(scratches[i] <= core.lens.fft_scratch);
    assert(reals[i] <= core.real_line_len);
    assert(complexes[i] <= core.complex_line_len);
}

} // verus!
