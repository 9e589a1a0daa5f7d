//! Mixed real-to-complex plans: what they consist of, their buffers and their preflights.

use vstd::prelude::*;

use crate::array::ManyPencilArray;
use crate::array::PencilArray;
use crate::error::ArrayError;
use crate::error::FftError;
use crate::handoff::Boundary;
use crate::handoff::HalfComplexStorage;
use crate::handoff::SharedStorage;
use crate::layout::memory_stride;
use crate::layout::Direction;
use crate::layout::DistributedLayout;
use crate::layout::ExtraShape;
use crate::layout::Pencil;
use crate::layout::R2cState;
use crate::local::LocalR2cPlan;
use crate::local::MixedR2cStageLocal;
use crate::local::MixedRealLocal;
use crate::mixed_convert::mixed_boundary_rows;
use crate::mixed_convert::mixed_rows;
use crate::mixed_prepare::MixedGraph;
use crate::r2c::allocated_len;
use crate::r2c::r2c_state_before;
use crate::r2c::stored_len;
use crate::registry::distinct_layouts;
use crate::registry::exact_pencil_list;
use crate::registry::inputs_of;
use crate::registry::outputs_of;
use crate::registry::stages_wf;
use crate::registry::validate_exact_pencil_list;
use crate::registry::Stage;
use crate::scalar::pair_size;
use crate::scalar::Complex;
use crate::scalar::FftReal;
use crate::schedule::Itinerary;
use crate::schedule::RouteKind;
use crate::storage::checked_span;
use crate::storage::in_place_storage_requirements;
use crate::storage::pairs_fit;
use crate::storage::scalars_fit;
use crate::storage::storage_needs;
use crate::storage::validate_mixed_recast_capacity;
use crate::storage::StorageNeeds;
use crate::sweep::larger;
use crate::sweep::max_len;
use crate::transition::Transition;
use crate::workspace::accepts_pencil;
use crate::workspace::first_of;
use crate::workspace::lens_error;
use crate::workspace::pencil_accepted;
use crate::workspace::registered_error;
use crate::workspace::short_error;
use crate::workspace::too_short;
use crate::workspace::validate_embedding_len;
use crate::workspace::validate_registered;
use crate::workspace::validate_workspace_lengths_values;
use crate::workspace::CommonLens;
use crate::workspace::TransposeWorkspace;

verus! {

/// What a mixed real-to-complex plan consists of.
#[derive(Debug)]
pub struct MixedR2cCore<const N: usize, const M: usize> {
    /// Tells this plan from others.
    pub id: u64,
    /// Where each stage works.
    pub stages: Vec<Stage<N, M>>,
    /// The kernel of each stage.
    pub locals: Vec<MixedR2cStageLocal>,
    /// The exchanges between the stages.
    pub transitions: Vec<Transition>,
    /// The layouts that real values may lie in.
    pub real_pencils: Vec<Pencil<N, M>>,
    /// The layouts that complex values may lie in.
    pub complex_pencils: Vec<Pencil<N, M>>,
    /// The extra dimensions.
    pub extra_shape: ExtraShape,
    /// What is done along each axis, and with which kernels.
    pub graph: MixedGraph<N>,
    /// How values are exchanged and laid out.
    pub layout: DistributedLayout,
    /// The words that processes agree on.
    pub descriptor: Vec<u64>,
    /// The stage at which real values become complex.
    pub boundary: usize,
    /// Elements of the embedding line.
    pub embedding_len: usize,
    /// Elements of the scratch buffer, and complex elements that exchanges send and receive.
    pub lens: CommonLens,
    /// Elements of the scratch buffer, and real elements that exchanges send and receive.
    pub real_lens: CommonLens,
    /// Elements of a real line.
    pub real_line_len: usize,
    /// Elements of a complex line.
    pub complex_line_len: usize,
    /// The bit pattern of the absolute threshold of an unnormalized execution.
    pub raw_absolute_threshold: u64,
    /// Whether arrays must have the very layouts of the plan.
    pub strict_array_identity: bool,
}

/// The buffers of exchanges and kernels.
#[derive(Debug)]
pub struct MixedBuffers<R: FftReal> {
    /// The buffers of complex exchanges.
    pub transpose: TransposeWorkspace<Complex<R>>,
    /// The buffers of real exchanges, where there are any.
    pub real_transpose: Option<TransposeWorkspace<R>>,
    /// The embedding line.
    pub embedding_line: Vec<Complex<R>>,
    /// The scratch buffer.
    pub fft_scratch: Vec<Complex<R>>,
    /// A real source line.
    pub real_source_line: Vec<R>,
    /// A real line.
    pub real_line: Vec<R>,
    /// A complex source line.
    pub complex_source_line: Vec<Complex<R>>,
    /// A complex line.
    pub complex_line: Vec<Complex<R>>,
    /// The real line for stages whose lines do not lie in one piece.
    pub real_strided_line: Vec<R>,
    /// The complex line for stages whose lines do not lie in one piece.
    pub complex_strided_line: Vec<Complex<R>>,
}

/// Buffers of an out-of-place execution.
#[derive(Debug)]
pub struct MixedR2cWorkspace<R: FftReal, const N: usize, const M: usize> {
    /// The plan it was made for.
    pub core: u64,
    /// The complex values between the stages.
    pub intermediate: ManyPencilArray<Complex<R>, N, M>,
    /// The real values between the stages, where there are real exchanges.
    pub real_intermediate: Option<ManyPencilArray<R, N, M>>,
    /// The buffers of exchanges and kernels.
    pub buffers: MixedBuffers<R>,
}

/// An array that is transformed in place, in one allocation.
#[derive(Debug)]
pub struct MixedR2cInPlaceArray<R: FftReal, const N: usize, const M: usize> {
    /// The plan it was made for.
    pub core: u64,
    /// The allocation and its layouts.
    pub shared: SharedStorage<R, N, M>,
    /// Which side of the transform the values are on.
    pub state: R2cState,
}

/// Buffers of an in-place execution.
#[derive(Debug)]
pub struct MixedR2cInPlaceWorkspace<R: FftReal, const N: usize, const M: usize> {
    /// The plan it was made for.
    pub core: u64,
    /// The buffers of exchanges and kernels.
    pub buffers: MixedBuffers<R>,
}

impl<const N: usize, const M: usize> MixedR2cCore<N, M> {
    /// The stages, their kernels and the exchanges between them belong together.
    pub open spec fn wf(&self) -> bool {
        &&& self.boundary < N
        &&& self.stages@.len() == N
        &&& self.locals@.len() == N
        &&& self.transitions@.len() == N - 1
        &&& stages_wf(self.stages@)
        &&& self.extra_shape.wf()
        &&& self.locals@[self.boundary as int] matches MixedR2cStageLocal::Real(
            MixedRealLocal::Rfft(plan),
        ) && plan.wf()
        &&& forall|i: int|
            0 <= i < N && i != self.boundary ==> ((#[trigger] self.locals@[i]) is Real <==> i
                < self.boundary)
        &&& self.real_pencils@ == distinct_layouts(inputs_of(self.stages@.take(self.boundary + 1)))
        &&& self.complex_pencils@ == distinct_layouts(
            outputs_of(self.stages@.skip(self.boundary as int)),
        )
        &&& self.real_lens.fft_scratch == self.lens.fft_scratch
    }

    /// The lengths of boundary lines.
    pub open spec fn plan(&self) -> LocalR2cPlan {
        self.locals@[self.boundary as int]->Real_0->Rfft_0
    }

    /// Returns the lengths of boundary lines.
    pub fn boundary_plan(&self) -> (plan: LocalR2cPlan)
        requires
            self.wf(),
        ensures
            plan == self.plan(),
    {
        match self.locals[self.boundary] {
            MixedR2cStageLocal::Real(MixedRealLocal::Rfft(plan)) => plan,
            _ => LocalR2cPlan { real_len: 1, complex_len: 1, scratch_len: 0 },
        }
    }

    /// Where the boundary lies and how long its lines are.
    pub open spec fn spec_boundary(&self) -> Boundary<N, M> {
        Boundary {
            stage: self.stages@[self.boundary as int],
            plan: self.plan(),
            extra: self.extra_shape.element_count,
        }
    }

    /// Returns where the boundary lies and how long its lines are.
    pub fn boundary_lines(&self) -> (boundary: Boundary<N, M>)
        requires
            self.wf(),
        ensures
            boundary == self.spec_boundary(),
            boundary.wf(),
    {
        proof {
            assert(self.stages@[self.boundary as int].wf());
        }
        Boundary {
            stage: self.stages[self.boundary],
            plan: self.boundary_plan(),
            extra: self.extra_shape.element_count,
        }
    }

    /// The layout that the plan starts from.
    pub open spec fn spec_input(&self) -> Pencil<N, M> {
        self.stages@[0].input
    }

    /// The layout that the plan leaves.
    pub open spec fn spec_output(&self) -> Pencil<N, M> {
        self.stages@.last().output
    }

    /// The layout that an execution reads.
    pub open spec fn source_pencil(&self, direction: Direction) -> Pencil<N, M> {
        if direction == Direction::Forward {
            self.spec_input()
        } else {
            self.spec_output()
        }
    }

    /// The layout that an execution writes.
    pub open spec fn destination_pencil(&self, direction: Direction) -> Pencil<N, M> {
        if direction == Direction::Forward {
            self.spec_output()
        } else {
            self.spec_input()
        }
    }

    fn source_of(&self, direction: Direction) -> (pencil: Pencil<N, M>)
        requires
            self.wf(),
        ensures
            pencil == self.source_pencil(direction),
    {
        match direction {
            Direction::Forward => self.stages[0].input,
            _ => self.stages[self.stages.len() - 1].output,
        }
    }

    fn destination_of(&self, direction: Direction) -> (pencil: Pencil<N, M>)
        requires
            self.wf(),
        ensures
            pencil == self.destination_pencil(direction),
    {
        match direction {
            Direction::Forward => self.stages[self.stages.len() - 1].output,
            _ => self.stages[0].input,
        }
    }

    /// The route of an execution.
    pub open spec fn itinerary(&self) -> Itinerary {
        Itinerary {
            kind: RouteKind::MixedHalfComplex,
            stages: self.stages@.len() as usize,
            boundary: self.boundary,
        }
    }

    /// Returns the route of an execution.
    pub fn route(&self) -> (route: Itinerary)
        ensures
            route == self.itinerary(),
            route.stages == self.stages@.len(),
    {
        Itinerary {
            kind: RouteKind::MixedHalfComplex,
            stages: self.stages.len(),
            boundary: self.boundary,
        }
    }
}

/// The lengths of the buffers of complex exchanges.
pub open spec fn complex_lens_of<R: FftReal>(buffers: MixedBuffers<R>) -> CommonLens {
    CommonLens {
        fft_scratch: buffers.fft_scratch@.len() as usize,
        send: buffers.transpose.send@.len() as usize,
        receive: buffers.transpose.receive@.len() as usize,
    }
}

/// What is wrong with the buffers of real exchanges: they are there exactly where real values are
/// exchanged, and long enough.
pub open spec fn real_buffers_error<R: FftReal, const N: usize, const M: usize>(
    core: MixedR2cCore<N, M>,
    buffers: MixedBuffers<R>,
) -> Option<FftError> {
    match buffers.real_transpose {
        Some(exchanged) => if core.boundary == 0 {
            Some(FftError::WorkspaceMismatch)
        } else {
            lens_error(
                CommonLens {
                    fft_scratch: buffers.fft_scratch@.len() as usize,
                    send: exchanged.send@.len() as usize,
                    receive: exchanged.receive@.len() as usize,
                },
                core.real_lens,
            )
        },
        None => if core.boundary == 0 {
            None
        } else {
            Some(FftError::WorkspaceMismatch)
        },
    }
}

fn check_real_buffers<R: FftReal, const N: usize, const M: usize>(
    core: &MixedR2cCore<N, M>,
    buffers: &MixedBuffers<R>,
) -> (error: Option<FftError>)
    ensures
        error == real_buffers_error(*core, *buffers),
{
    match &buffers.real_transpose {
        Some(exchanged) => if core.boundary == 0 {
            Some(FftError::WorkspaceMismatch)
        } else {
            validate_workspace_lengths_values(
                exchanged.lens(buffers.fft_scratch.len()),
                core.real_lens,
            )
        },
        None => if core.boundary == 0 {
            None
        } else {
            Some(FftError::WorkspaceMismatch)
        },
    }
}

/// What is wrong with the lines of kernels: the first that is too short.
pub open spec fn lines_error<R: FftReal, const N: usize, const M: usize>(
    core: MixedR2cCore<N, M>,
    buffers: MixedBuffers<R>,
) -> Option<FftError> {
    let real_len = core.plan().real_len;
    let complex_len = core.plan().complex_len;
    first_of(
        short_error(
            buffers.embedding_line@.len() as usize,
            core.embedding_len,
            "complex embedding",
        ),
        first_of(
            short_error(buffers.real_source_line@.len() as usize, real_len, "real source line"),
            first_of(
                short_error(
                    buffers.real_line@.len() as usize,
                    larger(core.real_line_len, real_len),
                    "real line",
                ),
                first_of(
                    short_error(
                        buffers.real_strided_line@.len() as usize,
                        core.real_line_len,
                        "real line",
                    ),
                    first_of(
                        short_error(
                            buffers.complex_source_line@.len() as usize,
                            complex_len,
                            "complex source line",
                        ),
                        first_of(
                            short_error(
                                buffers.complex_line@.len() as usize,
                                larger(core.complex_line_len, complex_len),
                                "complex line",
                            ),
                            short_error(
                                buffers.complex_strided_line@.len() as usize,
                                core.complex_line_len,
                                "complex line",
                            ),
                        ),
                    ),
                ),
            ),
        ),
    )
}

fn check_lines<R: FftReal, const N: usize, const M: usize>(
    core: &MixedR2cCore<N, M>,
    buffers: &MixedBuffers<R>,
) -> (error: Option<FftError>)
    requires
        core.wf(),
    ensures
        error == lines_error(*core, *buffers),
{
    let plan: LocalR2cPlan = core.boundary_plan();
    let embedding = validate_embedding_len(buffers.embedding_line.len(), core.embedding_len);
    if embedding.is_some() {
        return embedding;
    }
    let real_source = too_short(
        buffers.real_source_line.len(),
        plan.real_len,
        "real source line",
    );
    if real_source.is_some() {
        return real_source;
    }
    let real_line = too_short(
        buffers.real_line.len(),
        max_len(core.real_line_len, plan.real_len),
        "real line",
    );
    if real_line.is_some() {
        return real_line;
    }
    let real_strided = too_short(
        buffers.real_strided_line.len(),
        core.real_line_len,
        "real line",
    );
    if real_strided.is_some() {
        return real_strided;
    }
    let complex_source = too_short(
        buffers.complex_source_line.len(),
        plan.complex_len,
        "complex source line",
    );
    if complex_source.is_some() {
        return complex_source;
    }
    let complex_line = too_short(
        buffers.complex_line.len(),
        max_len(core.complex_line_len, plan.complex_len),
        "complex line",
    );
    if complex_line.is_some() {
        return complex_line;
    }
    too_short(buffers.complex_strided_line.len(), core.complex_line_len, "complex line")
}

/// What is wrong with the real values between the stages: they are there exactly where real
/// values are exchanged, in exactly the layouts of the plan.
pub open spec fn real_values_error<R: FftReal, const N: usize, const M: usize>(
    core: MixedR2cCore<N, M>,
    values: Option<ManyPencilArray<R, N, M>>,
) -> Option<FftError> {
    match values {
        Some(array) => if core.boundary == 0 || array.extra_shape.dimensions@
            != core.extra_shape.dimensions@ {
            Some(FftError::WorkspaceMismatch)
        } else {
            registered_error(array, core.real_pencils@)
        },
        None => if core.boundary == 0 {
            None
        } else {
            Some(FftError::WorkspaceMismatch)
        },
    }
}

/// What is wrong with a workspace: the first of the checks that fails.
pub open spec fn mixed_r2c_workspace_error<R: FftReal, const N: usize, const M: usize>(
    core: MixedR2cCore<N, M>,
    workspace: MixedR2cWorkspace<R, N, M>,
) -> Option<FftError> {
    if workspace.core != core.id {
        Some(FftError::WorkspaceMismatch)
    } else {
        first_of(
            lens_error(complex_lens_of(workspace.buffers), core.lens),
            if workspace.intermediate.extra_shape.dimensions@ != core.extra_shape.dimensions@ {
                Some(FftError::WorkspaceMismatch)
            } else {
                first_of(
                    registered_error(workspace.intermediate, core.complex_pencils@),
                    first_of(
                        real_values_error(core, workspace.real_intermediate),
                        first_of(
                            real_buffers_error(core, workspace.buffers),
                            lines_error(core, workspace.buffers),
                        ),
                    ),
                )
            },
        )
    }
}

/// Checks a workspace.
pub fn validate_mixed_r2c_common<R: FftReal, const N: usize, const M: usize>(
    core: &MixedR2cCore<N, M>,
    workspace: &MixedR2cWorkspace<R, N, M>,
) -> (error: Option<FftError>)
    requires
        core.wf(),
    ensures
        error == mixed_r2c_workspace_error(*core, *workspace),
{
    if workspace.core != core.id {
        return Some(FftError::WorkspaceMismatch);
    }
    let buffers: &MixedBuffers<R> = &workspace.buffers;
    let lens = validate_workspace_lengths_values(
        buffers.transpose.lens(buffers.fft_scratch.len()),
        core.lens,
    );
    if lens.is_some() {
        return lens;
    }
    if !workspace.intermediate.extra_shape.same(&core.extra_shape) {
        return Some(FftError::WorkspaceMismatch);
    }
    let registry = validate_registered(&workspace.intermediate, &core.complex_pencils);
    if registry.is_some() {
        return registry;
    }
    match &workspace.real_intermediate {
        Some(array) => {
            if core.boundary == 0 || !array.extra_shape.same(&core.extra_shape) {
                return Some(FftError::WorkspaceMismatch);
            }
            let real_registry = validate_registered(array, &core.real_pencils);
            if real_registry.is_some() {
                return real_registry;
            }
        },
        None => {
            if core.boundary > 0 {
                return Some(FftError::WorkspaceMismatch);
            }
        },
    }
    let real_buffers = check_real_buffers(core, buffers);
    if real_buffers.is_some() {
        return real_buffers;
    }
    check_lines(core, buffers)
}

/// What is wrong with the arguments of an out-of-place execution: the first of the checks that
/// fails.
pub open spec fn mixed_r2c_error<R: FftReal, S, U, const N: usize, const M: usize>(
    core: MixedR2cCore<N, M>,
    direction: Direction,
    source: PencilArray<S, N, M>,
    destination: PencilArray<U, N, M>,
    workspace: MixedR2cWorkspace<R, N, M>,
) -> Option<FftError> {
    let extra = core.extra_shape.dimensions@;
    let strict = core.strict_array_identity;
    if !accepts_pencil(strict, source.pencil, core.source_pencil(direction)) {
        Some(FftError::InputLayoutMismatch)
    } else if !accepts_pencil(strict, destination.pencil, core.destination_pencil(direction)) {
        Some(FftError::OutputLayoutMismatch)
    } else if source.extra_shape.dimensions@ != extra || destination.extra_shape.dimensions@
        != extra {
        Some(FftError::ExtraShapeMismatch)
    } else {
        mixed_r2c_workspace_error(core, workspace)
    }
}

/// Checks the arguments of an out-of-place execution.
pub fn validate_mixed_r2c_oop<R: FftReal, S, U, const N: usize, const M: usize>(
    core: &MixedR2cCore<N, M>,
    direction: Direction,
    source: &PencilArray<S, N, M>,
    destination: &PencilArray<U, N, M>,
    workspace: &MixedR2cWorkspace<R, N, M>,
) -> (error: Option<FftError>)
    requires
        core.wf(),
    ensures
        error == mixed_r2c_error(*core, direction, *source, *destination, *workspace),
{
    let strict: bool = core.strict_array_identity;
    if !pencil_accepted(strict, &source.pencil, &core.source_of(direction)) {
        return Some(FftError::InputLayoutMismatch);
    }
    if !pencil_accepted(strict, &destination.pencil, &core.destination_of(direction)) {
        return Some(FftError::OutputLayoutMismatch);
    }
    if !source.extra_shape.same(&core.extra_shape) || !destination.extra_shape.same(
        &core.extra_shape,
    ) {
        return Some(FftError::ExtraShapeMismatch);
    }
    validate_mixed_r2c_common(core, workspace)
}

/// Checks the arguments of a forward execution.
pub fn validate_mixed_r2c_forward<R: FftReal, const N: usize, const M: usize>(
    core: &MixedR2cCore<N, M>,
    source: &PencilArray<R, N, M>,
    destination: &PencilArray<Complex<R>, N, M>,
    workspace: &MixedR2cWorkspace<R, N, M>,
) -> (error: Option<FftError>)
    requires
        core.wf(),
    ensures
        error == mixed_r2c_error(*core, Direction::Forward, *source, *destination, *workspace),
{
    validate_mixed_r2c_oop(core, Direction::Forward, source, destination, workspace)
}

/// Checks the arguments of a reverse execution.
pub fn validate_mixed_r2c_reverse<R: FftReal, const N: usize, const M: usize>(
    core: &MixedR2cCore<N, M>,
    source: &PencilArray<Complex<R>, N, M>,
    destination: &PencilArray<R, N, M>,
    workspace: &MixedR2cWorkspace<R, N, M>,
) -> (error: Option<FftError>)
    requires
        core.wf(),
    ensures
        error == mixed_r2c_error(*core, Direction::Inverse, *source, *destination, *workspace),
{
    validate_mixed_r2c_oop(core, Direction::Inverse, source, destination, workspace)
}

/// What is wrong with the values of the active side and the layouts of the other.
pub open spec fn mixed_side_error<T, const N: usize, const M: usize>(
    core: MixedR2cCore<N, M>,
    direction: Direction,
    values: ManyPencilArray<T, N, M>,
    storage_len: usize,
    required: Seq<Pencil<N, M>>,
    inactive: Option<Vec<Pencil<N, M>>>,
    inactive_required: Seq<Pencil<N, M>>,
) -> Option<FftError> {
    match values.spec_active_pencil() {
        Err(error) => Some(FftError::Array(error)),
        Ok(active) => if values.extra_shape.dimensions@ != core.extra_shape.dimensions@
            || values.storage@.len() != storage_len {
            Some(FftError::StorageLayoutMismatch)
        } else {
            first_of(
                registered_error(values, required),
                if !active.spec_same_layout(&core.source_pencil(direction)) {
                    Some(FftError::InputLayoutMismatch)
                } else {
                    match inactive {
                        None => Some(FftError::StorageLayoutMismatch),
                        Some(pencils) => if exact_pencil_list(pencils@, inactive_required) {
                            None
                        } else {
                            Some(FftError::WorkspaceMismatch)
                        },
                    }
                },
            )
        },
    }
}

fn check_mixed_side<T, const N: usize, const M: usize>(
    core: &MixedR2cCore<N, M>,
    direction: Direction,
    values: &ManyPencilArray<T, N, M>,
    storage_len: usize,
    required: &Vec<Pencil<N, M>>,
    inactive: &Option<Vec<Pencil<N, M>>>,
    inactive_required: &Vec<Pencil<N, M>>,
) -> (error: Option<FftError>)
    requires
        core.wf(),
    ensures
        error == mixed_side_error(
            *core,
            direction,
            *values,
            storage_len,
            required@,
            *inactive,
            inactive_required@,
        ),
{
    let active: Pencil<N, M> = match values.active_pencil() {
        Ok(active) => active,
        Err(error) => {
            return Some(FftError::Array(error));
        },
    };
    if !values.extra_shape.same(&core.extra_shape) || values.storage.len() != storage_len {
        return Some(FftError::StorageLayoutMismatch);
    }
    let registry = validate_registered(values, required);
    if registry.is_some() {
        return registry;
    }
    if !active.same_layout(&core.source_of(direction)) {
        return Some(FftError::InputLayoutMismatch);
    }
    match inactive {
        None => Some(FftError::StorageLayoutMismatch),
        Some(pencils) => match validate_exact_pencil_list(pencils, inactive_required) {
            Ok(_) => None,
            Err(error) => Some(error),
        },
    }
}

/// What is wrong with the allocation: it must hold the side that the execution starts from.
pub open spec fn mixed_storage_error<R, const N: usize, const M: usize>(
    core: MixedR2cCore<N, M>,
    direction: Direction,
    shared: SharedStorage<R, N, M>,
) -> Option<FftError> {
    match shared.storage {
        Some(HalfComplexStorage::Real(values)) => if direction == Direction::Forward {
            mixed_side_error(
                core,
                direction,
                values,
                shared.real_storage_len,
                core.real_pencils@,
                shared.complex_pencils,
                core.complex_pencils@,
            )
        } else {
            Some(FftError::StorageLayoutMismatch)
        },
        Some(HalfComplexStorage::Complex(values)) => if direction == Direction::Forward {
            Some(FftError::StorageLayoutMismatch)
        } else {
            mixed_side_error(
                core,
                direction,
                values,
                shared.complex_storage_len,
                core.complex_pencils@,
                shared.real_pencils,
                core.real_pencils@,
            )
        },
        _ => Some(FftError::StorageLayoutMismatch),
    }
}

fn check_mixed_storage<R, const N: usize, const M: usize>(
    core: &MixedR2cCore<N, M>,
    direction: Direction,
    shared: &SharedStorage<R, N, M>,
) -> (error: Option<FftError>)
    requires
        core.wf(),
    ensures
        error == mixed_storage_error(*core, direction, *shared),
{
    match &shared.storage {
        Some(HalfComplexStorage::Real(values)) => match direction {
            Direction::Forward => check_mixed_side(
                core,
                direction,
                values,
                shared.real_storage_len,
                &core.real_pencils,
                &shared.complex_pencils,
                &core.complex_pencils,
            ),
            _ => Some(FftError::StorageLayoutMismatch),
        },
        Some(HalfComplexStorage::Complex(values)) => match direction {
            Direction::Forward => Some(FftError::StorageLayoutMismatch),
            _ => check_mixed_side(
                core,
                direction,
                values,
                shared.complex_storage_len,
                &core.complex_pencils,
                &shared.real_pencils,
                &core.real_pencils,
            ),
        },
        _ => Some(FftError::StorageLayoutMismatch),
    }
}

/// What is wrong with the boundary lines of the side that the execution starts from: they must
/// fill whole blocks, and the lines of both sides must fit the allocation.
pub open spec fn phase_error<const N: usize, const M: usize>(
    core: MixedR2cCore<N, M>,
    direction: Direction,
    capacity: int,
) -> Option<FftError> {
    let forward = direction == Direction::Forward;
    let boundary = core.spec_boundary();
    let stride = if forward {
        boundary.real_stride()
    } else {
        boundary.complex_stride()
    };
    match (mixed_rows(boundary, !forward), stride) {
        (Some(rows), Some(step)) => if step > 1 && (rows % (step as int) != 0 || (rows / (
        step as int)) * boundary.plan.real_len * step > capacity || (rows / (step as int))
            * boundary.plan.complex_len * step > capacity) {
            Some(FftError::PreparationFailed)
        } else {
            None
        },
        _ => Some(FftError::PreparationFailed),
    }
}

fn check_phase<const N: usize, const M: usize>(
    core: &MixedR2cCore<N, M>,
    direction: Direction,
    capacity: usize,
) -> (error: Option<FftError>)
    requires
        core.wf(),
    ensures
        error == phase_error(*core, direction, capacity as int),
{
    let boundary: Boundary<N, M> = core.boundary_lines();
    let forward: bool = match direction {
        Direction::Forward => true,
        _ => false,
    };
    let rows: usize = match mixed_boundary_rows(&boundary, !forward) {
        Ok(rows) => rows,
        Err(_) => {
            return Some(FftError::PreparationFailed);
        },
    };
    let counted = if forward {
        memory_stride(&boundary.stage.input, boundary.stage.axis)
    } else {
        memory_stride(&boundary.stage.output, boundary.stage.axis)
    };
    let stride: usize = match counted {
        Ok(stride) => stride,
        Err(_) => {
            return Some(FftError::PreparationFailed);
        },
    };
    if stride > 1 {
        if rows % stride != 0 {
            return Some(FftError::PreparationFailed);
        }
        let groups: usize = rows / stride;
        match (
            checked_span(groups, boundary.plan.real_len, stride),
            checked_span(groups, boundary.plan.complex_len, stride),
        ) {
            (Some(real_span), Some(complex_span)) => {
                if real_span > capacity || complex_span > capacity {
                    return Some(FftError::PreparationFailed);
                }
            },
            _ => {
                return Some(FftError::PreparationFailed);
            },
        }
    }
    None
}

/// What is wrong with the lengths of the allocation, which holds `capacity` elements.
pub open spec fn mixed_len_error<R: FftReal, const N: usize, const M: usize>(
    core: MixedR2cCore<N, M>,
    direction: Direction,
    shared: SharedStorage<R, N, M>,
    capacity: usize,
) -> Option<FftError> {
    match storage_needs(
        core.stages@,
        Some(core.boundary),
        core.extra_shape.element_count as int,
        R::bytes() as int,
    ) {
        None => Some(FftError::PreparationFailed),
        Some(needs) => if needs.real_len != shared.real_storage_len || needs.complex_len
            != shared.complex_storage_len || needs.storage_bytes != shared.storage_bytes {
            Some(FftError::StorageLayoutMismatch)
        } else {
            let fits = match shared.storage {
                Some(HalfComplexStorage::Real(values)) => direction == Direction::Forward
                    && values.storage@.len() == needs.real_len && pairs_fit::<R>(
                    capacity as int,
                    needs.storage_bytes as int,
                ),
                Some(HalfComplexStorage::Complex(values)) => direction != Direction::Forward
                    && values.storage@.len() == needs.complex_len && scalars_fit::<R>(
                    capacity as int,
                    needs.storage_bytes as int,
                ),
                _ => false,
            };
            if fits {
                phase_error(core, direction, needs.complex_capacity as int)
            } else {
                Some(FftError::StorageLayoutMismatch)
            }
        },
    }
}

fn check_mixed_len<R: FftReal, const N: usize, const M: usize>(
    core: &MixedR2cCore<N, M>,
    direction: Direction,
    shared: &SharedStorage<R, N, M>,
    capacity: usize,
) -> (error: Option<FftError>)
    requires
        core.wf(),
    ensures
        error == mixed_len_error(*core, direction, *shared, capacity),
{
    let needs: StorageNeeds = match in_place_storage_requirements(
        &core.stages,
        Some(core.boundary),
        core.extra_shape.element_count,
        R::scalar_bytes(),
    ) {
        Ok(needs) => needs,
        Err(error) => {
            return Some(error);
        },
    };
    if needs.real_len != shared.real_storage_len || needs.complex_len
        != shared.complex_storage_len || needs.storage_bytes != shared.storage_bytes {
        return Some(FftError::StorageLayoutMismatch);
    }
    let pair: usize = pair_size::<R>();
    proof {
        R::lemma_bytes();
        assert(pair == 2 * R::bytes());
    }
    let forward: bool = match direction {
        Direction::Forward => true,
        _ => false,
    };
    let fits: bool = match &shared.storage {
        Some(HalfComplexStorage::Real(values)) => forward && values.storage.len() == needs.real_len
            && validate_mixed_recast_capacity::<R, Complex<R>>(
            capacity,
            needs.storage_bytes,
        ).is_ok(),
        Some(HalfComplexStorage::Complex(values)) => !forward && values.storage.len()
            == needs.complex_len && validate_mixed_recast_capacity::<Complex<R>, R>(
            capacity,
            needs.storage_bytes,
        ).is_ok(),
        _ => false,
    };
    if !fits {
        return Some(FftError::StorageLayoutMismatch);
    }
    check_phase(core, direction, needs.complex_capacity)
}

/// What is wrong with the arguments of an in-place execution, whose allocation holds `capacity`
/// elements: the first of the checks that fails.
pub open spec fn mixed_r2c_in_place_error<R: FftReal, const N: usize, const M: usize>(
    core: MixedR2cCore<N, M>,
    direction: Direction,
    array: MixedR2cInPlaceArray<R, N, M>,
    workspace: MixedR2cInPlaceWorkspace<R, N, M>,
    capacity: usize,
) -> Option<FftError> {
    if array.core != core.id {
        Some(FftError::Array(ArrayError::IncompatiblePencils))
    } else if workspace.core != core.id {
        Some(FftError::WorkspaceMismatch)
    } else if array.state == R2cState::Poisoned {
        Some(FftError::Array(ArrayError::Poisoned))
    } else if array.state != r2c_state_before(direction) {
        Some(FftError::InputLayoutMismatch)
    } else {
        first_of(
            mixed_storage_error(core, direction, array.shared),
            first_of(
                lens_error(complex_lens_of(workspace.buffers), core.lens),
                first_of(
                    real_buffers_error(core, workspace.buffers),
                    first_of(
                        lines_error(core, workspace.buffers),
                        mixed_len_error(core, direction, array.shared, capacity),
                    ),
                ),
            ),
        )
    }
}

/// Checks the arguments of an in-place execution whose allocation holds `capacity` elements.
pub fn validate_mixed_r2c_ip_with<R: FftReal, const N: usize, const M: usize>(
    core: &MixedR2cCore<N, M>,
    direction: Direction,
    array: &MixedR2cInPlaceArray<R, N, M>,
    workspace: &MixedR2cInPlaceWorkspace<R, N, M>,
    capacity: usize,
) -> (error: Option<FftError>)
    requires
        core.wf(),
    ensures
        error == mixed_r2c_in_place_error(*core, direction, *array, *workspace, capacity),
{
    if array.core != core.id {
        return Some(FftError::Array(ArrayError::IncompatiblePencils));
    }
    if workspace.core != core.id {
        return Some(FftError::WorkspaceMismatch);
    }
    if array.state == R2cState::Poisoned {
        return Some(FftError::Array(ArrayError::Poisoned));
    }
    let expected: R2cState = match direction {
        Direction::Forward => R2cState::RealInput,
        _ => R2cState::ComplexOutput,
    };
    if array.state != expected {
        return Some(FftError::InputLayoutMismatch);
    }
    let storage = check_mixed_storage(core, direction, &array.shared);
    if storage.is_some() {
        return storage;
    }
    let buffers: &MixedBuffers<R> = &workspace.buffers;
    let lens = validate_workspace_lengths_values(
        buffers.transpose.lens(buffers.fft_scratch.len()),
        core.lens,
    );
    if lens.is_some() {
        return lens;
    }
    let real_buffers = check_real_buffers(core, buffers);
    if real_buffers.is_some() {
        return real_buffers;
    }
    let lines = check_lines(core, buffers);
    if lines.is_some() {
        return lines;
    }
    check_mixed_len(core, direction, &array.shared, capacity)
}

/// Checks the arguments of an in-place execution.
pub fn validate_mixed_r2c_ip<R: FftReal, const N: usize, const M: usize>(
    core: &MixedR2cCore<N, M>,
    direction: Direction,
    array: &MixedR2cInPlaceArray<R, N, M>,
    workspace: &MixedR2cInPlaceWorkspace<R, N, M>,
) -> (error: Option<FftError>)
    requires
        core.wf(),
    ensures
        exists|capacity: usize|
            stored_len(array.shared) <= capacity && error == #[trigger] mixed_r2c_in_place_error(
                *core,
                direction,
                *array,
                *workspace,
                capacity,
            ),
{
    validate_mixed_r2c_ip_with(core, direction, array, workspace, allocated_len(&array.shared))
}

} // verus!
