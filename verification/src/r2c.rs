//! Real-to-complex plans: what they consist of, their buffers and their preflights.

use vstd::prelude::*;

use crate::array::capacity_of;
use crate::array::ManyPencilArray;
use crate::array::PencilArray;
use crate::error::ArrayError;
use crate::error::FftError;
use crate::handoff::HalfComplexStorage;
use crate::handoff::Boundary;
use crate::handoff::SharedStorage;
use crate::layout::memory_stride;
use crate::layout::AxisSelection;
use crate::layout::Direction;
use crate::layout::DistributedLayout;
use crate::layout::ExtraShape;
use crate::layout::Pencil;
use crate::layout::R2cState;
use crate::local::LocalR2cPlan;
use crate::local::LocalTransform;
use crate::registry::contains_layout;
use crate::registry::has_layout;
use crate::registry::outputs_of;
use crate::registry::registered_layout_matches;
use crate::registry::stages_wf;
use crate::registry::Stage;
use crate::scalar::Complex;
use crate::scalar::FftReal;
use crate::schedule::Itinerary;
use crate::schedule::RouteKind;
use crate::storage::in_place_storage_requirements;
use crate::storage::pairs_fit;
use crate::storage::scalars_fit;
use crate::storage::storage_needs;
use crate::storage::strided_phase_of;
use crate::storage::strided_phase_shape;
use crate::storage::validate_pairs_fit;
use crate::storage::validate_scalars_fit;
use crate::storage::StorageNeeds;
use crate::transition::Transition;
use crate::workspace::first_of;
use crate::workspace::lens_error;
use crate::workspace::short_error;
use crate::workspace::too_short;
use crate::workspace::validate_workspace_lengths_values;
use crate::workspace::CommonLens;
use crate::workspace::TransposeWorkspace;

verus! {

/// What a real-to-complex plan consists of.
#[derive(Debug)]
pub struct TransformPlanCore<const N: usize, const M: usize> {
    /// Tells this plan from others.
    pub id: u64,
    /// Where each stage works.
    pub stages: Vec<Stage<N, M>>,
    /// The kernel of each stage.
    pub locals: Vec<LocalTransform>,
    /// The exchanges between the stages.
    pub transitions: Vec<Transition>,
    /// The extra dimensions.
    pub extra_shape: ExtraShape,
    /// The axes that the plan transforms.
    pub selection: AxisSelection<N>,
    /// How values are exchanged and laid out.
    pub layout: DistributedLayout,
    /// The stage at which real values become complex.
    pub boundary: usize,
    /// The words that processes agree on.
    pub descriptor: Vec<u64>,
    /// Elements of the scratch buffer, and complex elements that exchanges send and receive.
    pub lens: CommonLens,
    /// Elements of the scratch buffer, and real elements that exchanges send and receive.
    pub real_lens: CommonLens,
    /// Elements of the complex line for stages whose lines do not lie in one piece.
    pub strided_line_len: usize,
    /// The bit pattern of the absolute threshold of an unnormalized execution.
    pub raw_absolute_threshold: u64,
}

/// Buffers of an out-of-place execution.
#[derive(Debug)]
pub struct R2cWorkspace<R: FftReal, const N: usize, const M: usize> {
    /// The plan it was made for.
    pub core: u64,
    /// The complex values between the stages.
    pub intermediate: ManyPencilArray<Complex<R>, N, M>,
    /// The buffers of complex exchanges.
    pub transpose: TransposeWorkspace<Complex<R>>,
    /// The real values between the stages, where there are real exchanges.
    pub real_intermediate: Option<ManyPencilArray<R, N, M>>,
    /// The buffers of real exchanges, where there are any.
    pub real_transpose: Option<TransposeWorkspace<R>>,
    /// The scratch buffer.
    pub fft_scratch: Vec<Complex<R>>,
    /// A real source line, where boundary lines do not lie in one piece.
    pub real_source_line: Option<Vec<R>>,
    /// A real line.
    pub real_line: Vec<R>,
    /// A complex line.
    pub complex_line: Vec<Complex<R>>,
    /// The complex line for stages whose lines do not lie in one piece.
    pub complex_strided_line: Vec<Complex<R>>,
}

/// An array that is transformed in place, in one allocation.
#[derive(Debug)]
pub struct R2cInPlaceArray<R: FftReal, const N: usize, const M: usize> {
    /// The plan it was made for.
    pub core: u64,
    /// The allocation and its layouts.
    pub shared: SharedStorage<R, N, M>,
    /// Which side of the transform the values are on.
    pub state: R2cState,
}

/// Buffers of an in-place execution.
#[derive(Debug)]
pub struct R2cInPlaceWorkspace<R: FftReal, const N: usize, const M: usize> {
    /// The plan it was made for.
    pub core: u64,
    /// The buffers of complex exchanges.
    pub transpose: TransposeWorkspace<Complex<R>>,
    /// The buffers of real exchanges, where there are any.
    pub real_transpose: Option<TransposeWorkspace<R>>,
    /// The scratch buffer.
    pub fft_scratch: Vec<Complex<R>>,
    /// A real source line, where boundary lines do not lie in one piece.
    pub real_source_line: Option<Vec<R>>,
    /// A real line.
    pub real_line: Vec<R>,
    /// A complex source line.
    pub complex_source_line: Vec<Complex<R>>,
    /// A complex line.
    pub complex_line: Vec<Complex<R>>,
    /// The complex line for stages whose lines do not lie in one piece.
    pub complex_strided_line: Vec<Complex<R>>,
}

impl<const N: usize, const M: usize> TransformPlanCore<N, M> {
    /// The stages, their kernels and the exchanges between them belong together.
    pub open spec fn wf(&self) -> bool {
        &&& self.boundary < self.stages@.len()
        &&& self.locals@.len() == self.stages@.len()
        &&& self.transitions@.len() == self.stages@.len() - 1
        &&& stages_wf(self.stages@)
        &&& self.extra_shape.wf()
        &&& self.locals@[self.boundary as int] is RealComplex
        &&& self.plan().wf()
    }

    /// The lengths of boundary lines.
    pub open spec fn plan(&self) -> LocalR2cPlan {
        self.locals@[self.boundary as int]->RealComplex_0
    }

    /// Distance between neighbours of a boundary line before the transform, if it can be counted.
    pub open spec fn boundary_stride(&self) -> Option<usize> {
        self.stages@[self.boundary as int].input.stride_along(
            self.stages@[self.boundary as int].axis as int,
        )
    }

    /// Returns the lengths of boundary lines.
    pub fn boundary_plan(&self) -> (plan: LocalR2cPlan)
        requires
            self.wf(),
        ensures
            plan == self.plan(),
    {
        match self.locals[self.boundary] {
            LocalTransform::RealComplex(plan) => plan,
            _ => LocalR2cPlan { real_len: 1, complex_len: 1, scratch_len: 0 },
        }
    }

    /// Where the boundary lies and how long its lines are.
    pub open spec fn spec_boundary(&self) -> Boundary<N, M> {
        Boundary {
            stage: self.stages@[self.boundary as int],
            plan: self.plan(),
            extra: self.extra_shape.element_count,
        }
    }

    /// Returns where the boundary lies and how long its lines are.
    pub fn boundary_lines(&self) -> (boundary: Boundary<N, M>)
        requires
            self.wf(),
        ensures
            boundary == self.spec_boundary(),
            boundary.wf(),
    {
        proof {
            assert(self.stages@[self.boundary as int].wf());
        }
        Boundary {
            stage: self.stages[self.boundary],
            plan: self.boundary_plan(),
            extra: self.extra_shape.element_count,
        }
    }

    /// Returns the elements of a boundary line before and behind the transform.
    pub fn r2c_lengths(&self) -> (lens: (usize, usize))
        requires
            self.wf(),
        ensures
            lens == (self.plan().real_len, self.plan().complex_len),
    {
        let plan: LocalR2cPlan = self.boundary_plan();
        (plan.real_len, plan.complex_len)
    }

    /// The layout that the plan starts from.
    pub open spec fn spec_input(&self) -> Pencil<N, M> {
        self.stages@[0].input
    }

    /// The layout that the plan leaves.
    pub open spec fn spec_output(&self) -> Pencil<N, M> {
        self.stages@.last().output
    }

    /// The layout that an execution reads.
    pub open spec fn source_pencil(&self, direction: Direction) -> Pencil<N, M> {
        if direction == Direction::Forward {
            self.spec_input()
        } else {
            self.spec_output()
        }
    }

    /// The layout that an execution writes.
    pub open spec fn destination_pencil(&self, direction: Direction) -> Pencil<N, M> {
        if direction == Direction::Forward {
            self.spec_output()
        } else {
            self.spec_input()
        }
    }

    fn source_of(&self, direction: Direction) -> (pencil: Pencil<N, M>)
        requires
            self.wf(),
        ensures
            pencil == self.source_pencil(direction),
    {
        match direction {
            Direction::Forward => self.stages[0].input,
            _ => self.stages[self.stages.len() - 1].output,
        }
    }

    fn destination_of(&self, direction: Direction) -> (pencil: Pencil<N, M>)
        requires
            self.wf(),
        ensures
            pencil == self.destination_pencil(direction),
    {
        match direction {
            Direction::Forward => self.stages[self.stages.len() - 1].output,
            _ => self.stages[0].input,
        }
    }

    /// The route of an execution.
    pub open spec fn itinerary(&self) -> Itinerary {
        Itinerary {
            kind: RouteKind::HalfComplex,
            stages: self.stages@.len() as usize,
            boundary: self.boundary,
        }
    }

    /// Returns the route of an execution.
    pub fn route(&self) -> (route: Itinerary)
        ensures
            route == self.itinerary(),
            route.stages == self.stages@.len(),
    {
        Itinerary {
            kind: RouteKind::HalfComplex,
            stages: self.stages.len(),
            boundary: self.boundary,
        }
    }

    /// Whether a stage from the boundary on leaves the layout of `pencil`.
    fn leaves_layout(&self, pencil: &Pencil<N, M>) -> (found: bool)
        requires
            self.wf(),
        ensures
            found == has_layout(outputs_of(self.stages@.skip(self.boundary as int)), *pencil),
    {
        let ghost outputs = outputs_of(self.stages@.skip(self.boundary as int));
        let mut index: usize = self.boundary;
        while index < self.stages.len()
            invariant
                self.wf(),
                self.boundary <= index <= self.stages@.len(),
                outputs == outputs_of(self.stages@.skip(self.boundary as int)),
                forall|i: int|
                    0 <= i < index - self.boundary ==> !(#[trigger] outputs[i]).spec_same_layout(
                        pencil,
                    ),
            decreases self.stages@.len() - index,
        {
            assert(outputs[index - self.boundary] == self.stages@[index as int].output);
            if self.stages[index].output.same_layout(pencil) {
                return true;
            }
            index += 1;
        }
        false
    }
}

/// What is wrong with the real side of a workspace: it is there exactly as far as real values are
/// exchanged.
pub open spec fn real_side_error<R: FftReal, const N: usize, const M: usize>(
    core: TransformPlanCore<N, M>,
    workspace: R2cWorkspace<R, N, M>,
) -> Option<FftError> {
    if core.boundary == 0 {
        None
    } else {
        match workspace.real_intermediate {
            None => Some(FftError::WorkspaceMismatch),
            Some(real_values) => if real_values.extra_shape.dimensions@
                != core.extra_shape.dimensions@ || !has_layout(
                real_values.pencils@,
                core.stages@[core.boundary as int].input,
            ) {
                Some(FftError::WorkspaceMismatch)
            } else {
                match workspace.real_transpose {
                    None => Some(FftError::WorkspaceMismatch),
                    Some(buffers) => lens_error(
                        CommonLens {
                            fft_scratch: workspace.fft_scratch@.len() as usize,
                            send: buffers.send@.len() as usize,
                            receive: buffers.receive@.len() as usize,
                        },
                        core.real_lens,
                    ),
                }
            },
        }
    }
}

/// What is wrong with the line that is kept where boundary lines do not lie in one piece.
pub open spec fn source_line_error(
    stride: Option<usize>,
    real_source_line: Option<usize>,
    real_len: usize,
) -> Option<FftError> {
    match stride {
        None => Some(FftError::PreparationFailed),
        Some(step) => if step > 1 {
            short_error(
                match real_source_line {
                    Some(len) => len,
                    None => 0,
                },
                real_len,
                "real source line",
            )
        } else {
            None
        },
    }
}

/// The length of a buffer, if it is there.
pub open spec fn len_of<T>(buffer: Option<Vec<T>>) -> Option<usize> {
    match buffer {
        Some(elements) => Some(elements@.len() as usize),
        None => None,
    }
}

/// What is wrong with the arguments of an out-of-place execution: the first of the checks that
/// fails.
pub open spec fn r2c_out_of_place_error<R: FftReal, S, U, const N: usize, const M: usize>(
    core: TransformPlanCore<N, M>,
    direction: Direction,
    source: PencilArray<S, N, M>,
    destination: PencilArray<U, N, M>,
    workspace: R2cWorkspace<R, N, M>,
) -> Option<FftError> {
    let extra = core.extra_shape.dimensions@;
    if workspace.core != core.id {
        Some(FftError::WorkspaceMismatch)
    } else if !source.pencil.spec_same_layout(&core.source_pencil(direction)) {
        Some(FftError::InputLayoutMismatch)
    } else if !destination.pencil.spec_same_layout(&core.destination_pencil(direction)) {
        Some(FftError::OutputLayoutMismatch)
    } else if source.extra_shape.dimensions@ != extra || destination.extra_shape.dimensions@
        != extra {
        Some(FftError::ExtraShapeMismatch)
    } else {
        first_of(
            lens_error(
                CommonLens {
                    fft_scratch: workspace.fft_scratch@.len() as usize,
                    send: workspace.transpose.send@.len() as usize,
                    receive: workspace.transpose.receive@.len() as usize,
                },
                core.lens,
            ),
            first_of(
                intermediate_error(core, workspace.intermediate),
                first_of(
                    real_side_error(core, workspace),
                    first_of(
                        source_line_error(
                            core.boundary_stride(),
                            len_of(workspace.real_source_line),
                            core.plan().real_len,
                        ),
                        first_of(
                            short_error(
                                workspace.real_line@.len() as usize,
                                core.plan().real_len,
                                "real line",
                            ),
                            first_of(
                                short_error(
                                    workspace.complex_line@.len() as usize,
                                    core.plan().complex_len,
                                    "complex line",
                                ),
                                short_error(
                                    workspace.complex_strided_line@.len() as usize,
                                    core.strided_line_len,
                                    "complex line",
                                ),
                            ),
                        ),
                    ),
                ),
            ),
        )
    }
}

/// What is wrong with the complex values between the stages.
pub open spec fn intermediate_error<T, const N: usize, const M: usize>(
    core: TransformPlanCore<N, M>,
    intermediate: ManyPencilArray<T, N, M>,
) -> Option<FftError> {
    if intermediate.extra_shape.dimensions@ != core.extra_shape.dimensions@ {
        Some(FftError::WorkspaceMismatch)
    } else {
        match intermediate.spec_active_pencil() {
            Err(error) => Some(FftError::Array(error)),
            Ok(active) => if has_layout(
                outputs_of(core.stages@.skip(core.boundary as int)),
                active,
            ) {
                None
            } else {
                Some(FftError::WorkspaceMismatch)
            },
        }
    }
}

fn check_intermediate<T, const N: usize, const M: usize>(
    core: &TransformPlanCore<N, M>,
    intermediate: &ManyPencilArray<T, N, M>,
) -> (error: Option<FftError>)
    requires
        core.wf(),
    ensures
        error == intermediate_error(*core, *intermediate),
{
    if !intermediate.extra_shape.same(&core.extra_shape) {
        return Some(FftError::WorkspaceMismatch);
    }
    match intermediate.active_pencil() {
        Err(error) => Some(FftError::Array(error)),
        Ok(active) => if core.leaves_layout(&active) {
            None
        } else {
            Some(FftError::WorkspaceMismatch)
        },
    }
}

fn check_real_side<R: FftReal, const N: usize, const M: usize>(
    core: &TransformPlanCore<N, M>,
    workspace: &R2cWorkspace<R, N, M>,
) -> (error: Option<FftError>)
    requires
        core.wf(),
    ensures
        error == real_side_error(*core, *workspace),
{
    if core.boundary == 0 {
        return None;
    }
    match &workspace.real_intermediate {
        None => Some(FftError::WorkspaceMismatch),
        Some(real_values) => {
            if !real_values.extra_shape.same(&core.extra_shape) || !contains_layout(
                &real_values.pencils,
                &core.stages[core.boundary].input,
            ) {
                return Some(FftError::WorkspaceMismatch);
            }
            match &workspace.real_transpose {
                None => Some(FftError::WorkspaceMismatch),
                Some(buffers) => validate_workspace_lengths_values(
                    buffers.lens(workspace.fft_scratch.len()),
                    core.real_lens,
                ),
            }
        },
    }
}

fn check_source_line<R, const N: usize, const M: usize>(
    core: &TransformPlanCore<N, M>,
    line: &Option<Vec<R>>,
) -> (error: Option<FftError>)
    requires
        core.wf(),
    ensures
        error == source_line_error(core.boundary_stride(), len_of(*line), core.plan().real_len),
{
    let stage: Stage<N, M> = core.stages[core.boundary];
    proof {
        assert(core.stages@[core.boundary as int].wf());
    }
    match memory_stride(&stage.input, stage.axis) {
        Err(_) => Some(FftError::PreparationFailed),
        Ok(stride) => if stride > 1 {
            let actual: usize = match line {
                Some(elements) => elements.len(),
                None => 0,
            };
            too_short(actual, core.boundary_plan().real_len, "real source line")
        } else {
            None
        },
    }
}

/// Checks the arguments of an out-of-place execution.
pub fn preflight_common<R: FftReal, S, U, const N: usize, const M: usize>(
    core: &TransformPlanCore<N, M>,
    direction: Direction,
    source: &PencilArray<S, N, M>,
    destination: &PencilArray<U, N, M>,
    workspace: &R2cWorkspace<R, N, M>,
) -> (error: Option<FftError>)
    requires
        core.wf(),
    ensures
        error == r2c_out_of_place_error(*core, direction, *source, *destination, *workspace),
{
    if workspace.core != core.id {
        return Some(FftError::WorkspaceMismatch);
    }
    if !source.pencil.same_layout(&core.source_of(direction)) {
        return Some(FftError::InputLayoutMismatch);
    }
    if !destination.pencil.same_layout(&core.destination_of(direction)) {
        return Some(FftError::OutputLayoutMismatch);
    }
    if !source.extra_shape.same(&core.extra_shape) || !destination.extra_shape.same(
        &core.extra_shape,
    ) {
        return Some(FftError::ExtraShapeMismatch);
    }
    let lens = validate_workspace_lengths_values(
        workspace.transpose.lens(workspace.fft_scratch.len()),
        core.lens,
    );
    if lens.is_some() {
        return lens;
    }
    let intermediate = check_intermediate(core, &workspace.intermediate);
    if intermediate.is_some() {
        return intermediate;
    }
    let real_side = check_real_side(core, workspace);
    if real_side.is_some() {
        return real_side;
    }
    let source_line = check_source_line(core, &workspace.real_source_line);
    if source_line.is_some() {
        return source_line;
    }
    let (real_len, complex_len): (usize, usize) = core.r2c_lengths();
    let real_line = too_short(workspace.real_line.len(), real_len, "real line");
    if real_line.is_some() {
        return real_line;
    }
    let complex_line = too_short(workspace.complex_line.len(), complex_len, "complex line");
    if complex_line.is_some() {
        return complex_line;
    }
    too_short(workspace.complex_strided_line.len(), core.strided_line_len, "complex line")
}

/// Every stage of `stages[from..to]` has its input, or its output, registered.
pub open spec fn covers_stages<const N: usize, const M: usize>(
    registered: Seq<Pencil<N, M>>,
    stages: Seq<Stage<N, M>>,
    from: int,
    to: int,
    use_inputs: bool,
) -> bool {
    forall|i: int|
        from <= i < to ==> has_layout(
            registered,
            if use_inputs {
                (#[trigger] stages[i]).input
            } else {
                stages[i].output
            },
        )
}

/// The layouts of the side that is not active are registered.
pub open spec fn inactive_registered<R, const N: usize, const M: usize>(
    core: TransformPlanCore<N, M>,
    direction: Direction,
    shared: SharedStorage<R, N, M>,
) -> bool {
    if direction == Direction::Forward {
        match shared.complex_pencils {
            Some(pencils) => covers_stages(
                pencils@,
                core.stages@,
                core.boundary as int,
                core.stages@.len() as int,
                false,
            ),
            None => false,
        }
    } else {
        match shared.real_pencils {
            Some(pencils) => covers_stages(
                pencils@,
                core.stages@,
                0,
                core.boundary + 1,
                true,
            ),
            None => false,
        }
    }
}

/// What is wrong with the values of the active side.
pub open spec fn active_side_error<T, const N: usize, const M: usize>(
    core: TransformPlanCore<N, M>,
    direction: Direction,
    values: ManyPencilArray<T, N, M>,
) -> Option<FftError> {
    let covered = if direction == Direction::Forward {
        covers_stages(values.pencils@, core.stages@, 0, core.boundary + 1, true)
    } else {
        covers_stages(
            values.pencils@,
            core.stages@,
            core.boundary as int,
            core.stages@.len() as int,
            false,
        )
    };
    if values.extra_shape.dimensions@ != core.extra_shape.dimensions@ || !covered {
        Some(FftError::StorageLayoutMismatch)
    } else {
        match values.spec_active_pencil() {
            Err(error) => Some(FftError::Array(error)),
            Ok(active) => if active.spec_same_layout(&core.source_pencil(direction)) {
                None
            } else {
                Some(FftError::InputLayoutMismatch)
            },
        }
    }
}

/// What is wrong with the allocation: it must hold the side that the execution starts from.
pub open spec fn storage_side_error<R, const N: usize, const M: usize>(
    core: TransformPlanCore<N, M>,
    direction: Direction,
    storage: HalfComplexStorage<R, N, M>,
) -> Option<FftError> {
    match storage {
        HalfComplexStorage::Real(values) => if direction == Direction::Forward {
            active_side_error(core, direction, values)
        } else {
            Some(FftError::StorageLayoutMismatch)
        },
        HalfComplexStorage::Complex(values) => if direction == Direction::Forward {
            Some(FftError::StorageLayoutMismatch)
        } else {
            active_side_error(core, direction, values)
        },
        _ => Some(FftError::StorageLayoutMismatch),
    }
}

/// What is wrong with the lengths of the allocation, which holds `capacity` elements.
pub open spec fn storage_len_error<R: FftReal, const N: usize, const M: usize>(
    core: TransformPlanCore<N, M>,
    shared: SharedStorage<R, N, M>,
    capacity: usize,
) -> Option<FftError> {
    match storage_needs(
        core.stages@,
        Some(core.boundary),
        core.extra_shape.element_count as int,
        R::bytes() as int,
    ) {
        None => Some(FftError::PreparationFailed),
        Some(needs) => if needs.real_len != shared.real_storage_len || needs.complex_len
            != shared.complex_storage_len || needs.storage_bytes != shared.storage_bytes {
            Some(FftError::StorageLayoutMismatch)
        } else if strided_phase_of(
            core.stages@,
            Some(core.boundary),
            core.plan(),
            core.extra_shape.element_count as int,
            R::bytes() as int,
        ) is Err {
            Some(FftError::PreparationFailed)
        } else {
            match shared.storage {
                Some(HalfComplexStorage::Real(values)) => if values.storage@.len()
                    != needs.real_len || !pairs_fit::<R>(
                    capacity as int,
                    needs.storage_bytes as int,
                ) {
                    Some(FftError::StorageLayoutMismatch)
                } else {
                    None
                },
                Some(HalfComplexStorage::Complex(values)) => if values.storage@.len()
                    != needs.complex_len || !scalars_fit::<R>(
                    capacity as int,
                    needs.storage_bytes as int,
                ) {
                    Some(FftError::StorageLayoutMismatch)
                } else {
                    None
                },
                _ => Some(FftError::StorageLayoutMismatch),
            }
        },
    }
}

/// What is wrong with the buffers of an in-place execution.
pub open spec fn in_place_buffer_error<R: FftReal, const N: usize, const M: usize>(
    core: TransformPlanCore<N, M>,
    workspace: R2cInPlaceWorkspace<R, N, M>,
) -> Option<FftError> {
    first_of(
        lens_error(
            CommonLens {
                fft_scratch: workspace.fft_scratch@.len() as usize,
                send: workspace.transpose.send@.len() as usize,
                receive: workspace.transpose.receive@.len() as usize,
            },
            core.lens,
        ),
        first_of(
            if core.boundary == 0 {
                None
            } else {
                match workspace.real_transpose {
                    None => Some(FftError::WorkspaceMismatch),
                    Some(buffers) => lens_error(
                        CommonLens {
                            fft_scratch: workspace.fft_scratch@.len() as usize,
                            send: buffers.send@.len() as usize,
                            receive: buffers.receive@.len() as usize,
                        },
                        core.real_lens,
                    ),
                }
            },
            first_of(
                source_line_error(
                    core.boundary_stride(),
                    len_of(workspace.real_source_line),
                    core.plan().real_len,
                ),
                in_place_line_error(core, workspace),
            ),
        ),
    )
}

/// What is wrong with the line buffers of an in-place execution.
pub open spec fn in_place_line_error<R: FftReal, const N: usize, const M: usize>(
    core: TransformPlanCore<N, M>,
    workspace: R2cInPlaceWorkspace<R, N, M>,
) -> Option<FftError> {
    first_of(
        short_error(workspace.real_line@.len() as usize, core.plan().real_len, "real line"),
        first_of(
            short_error(
                workspace.complex_source_line@.len() as usize,
                core.plan().complex_len,
                "complex source line",
            ),
            first_of(
                short_error(
                    workspace.complex_line@.len() as usize,
                    core.plan().complex_len,
                    "complex line",
                ),
                short_error(
                    workspace.complex_strided_line@.len() as usize,
                    core.strided_line_len,
                    "complex line",
                ),
            ),
        ),
    )
}

/// The state that an in-place execution starts from.
pub open spec fn r2c_state_before(direction: Direction) -> R2cState {
    if direction == Direction::Forward {
        R2cState::RealInput
    } else {
        R2cState::ComplexOutput
    }
}

/// The state that an in-place execution leaves.
pub open spec fn r2c_state_behind(direction: Direction) -> R2cState {
    if direction == Direction::Forward {
        R2cState::ComplexOutput
    } else {
        R2cState::RealInput
    }
}

/// What is wrong with the arguments of an in-place execution, whose allocation holds `capacity`
/// elements: the first of the checks that fails.
pub open spec fn r2c_in_place_error<R: FftReal, const N: usize, const M: usize>(
    core: TransformPlanCore<N, M>,
    direction: Direction,
    array: R2cInPlaceArray<R, N, M>,
    workspace: R2cInPlaceWorkspace<R, N, M>,
    capacity: usize,
) -> Option<FftError> {
    if array.core != core.id {
        Some(FftError::Array(ArrayError::IncompatiblePencils))
    } else if workspace.core != core.id {
        Some(FftError::WorkspaceMismatch)
    } else if array.state == R2cState::Poisoned {
        Some(FftError::Array(ArrayError::Poisoned))
    } else if array.state != r2c_state_before(direction) {
        Some(FftError::InputLayoutMismatch)
    } else {
        match array.shared.storage {
            None => Some(FftError::StorageLayoutMismatch),
            Some(storage) => if !inactive_registered(core, direction, array.shared) {
                Some(FftError::WorkspaceMismatch)
            } else {
                first_of(
                    storage_side_error(core, direction, storage),
                    first_of(
                        storage_len_error(core, array.shared, capacity),
                        in_place_buffer_error(core, workspace),
                    ),
                )
            },
        }
    }
}

fn check_inactive<R, const N: usize, const M: usize>(
    core: &TransformPlanCore<N, M>,
    direction: Direction,
    shared: &SharedStorage<R, N, M>,
) -> (registered: bool)
    requires
        core.wf(),
    ensures
        registered == inactive_registered(*core, direction, *shared),
{
    let count: usize = core.stages.len();
    assert(core.boundary < count);
    match direction {
        Direction::Forward => match &shared.complex_pencils {
            Some(pencils) => registered_layout_matches(
                pencils,
                &core.stages,
                core.boundary,
                core.stages.len(),
                false,
            ),
            None => false,
        },
        _ => match &shared.real_pencils {
            Some(pencils) => registered_layout_matches(
                pencils,
                &core.stages,
                0,
                core.boundary + 1,
                true,
            ),
            None => false,
        },
    }
}

fn check_active<T, const N: usize, const M: usize>(
    core: &TransformPlanCore<N, M>,
    direction: Direction,
    values: &ManyPencilArray<T, N, M>,
) -> (error: Option<FftError>)
    requires
        core.wf(),
    ensures
        error == active_side_error(*core, direction, *values),
{
    let count: usize = core.stages.len();
    assert(core.boundary < count);
    let covered: bool = match direction {
        Direction::Forward => registered_layout_matches(
            &values.pencils,
            &core.stages,
            0,
            core.boundary + 1,
            true,
        ),
        _ => registered_layout_matches(
            &values.pencils,
            &core.stages,
            core.boundary,
            core.stages.len(),
            false,
        ),
    };
    if !values.extra_shape.same(&core.extra_shape) || !covered {
        return Some(FftError::StorageLayoutMismatch);
    }
    match values.active_pencil() {
        Err(error) => Some(FftError::Array(error)),
        Ok(active) => if active.same_layout(&core.source_of(direction)) {
            None
        } else {
            Some(FftError::InputLayoutMismatch)
        },
    }
}

fn check_storage_side<R, const N: usize, const M: usize>(
    core: &TransformPlanCore<N, M>,
    direction: Direction,
    storage: &HalfComplexStorage<R, N, M>,
) -> (error: Option<FftError>)
    requires
        core.wf(),
    ensures
        error == storage_side_error(*core, direction, *storage),
{
    match (direction, storage) {
        (Direction::Forward, HalfComplexStorage::Real(values)) => check_active(
            core,
            direction,
            values,
        ),
        (Direction::Inverse, HalfComplexStorage::Complex(values)) => check_active(
            core,
            direction,
            values,
        ),
        (Direction::Backward, HalfComplexStorage::Complex(values)) => check_active(
            core,
            direction,
            values,
        ),
        _ => Some(FftError::StorageLayoutMismatch),
    }
}

fn check_storage_len<R: FftReal, const N: usize, const M: usize>(
    core: &TransformPlanCore<N, M>,
    shared: &SharedStorage<R, N, M>,
    capacity: usize,
) -> (error: Option<FftError>)
    requires
        core.wf(),
    ensures
        error == storage_len_error(*core, *shared, capacity),
{
    let needs: StorageNeeds = match in_place_storage_requirements(
        &core.stages,
        Some(core.boundary),
        core.extra_shape.element_count,
        R::scalar_bytes(),
    ) {
        Ok(needs) => needs,
        Err(error) => {
            return Some(error);
        },
    };
    if needs.real_len != shared.real_storage_len || needs.complex_len
        != shared.complex_storage_len || needs.storage_bytes != shared.storage_bytes {
        return Some(FftError::StorageLayoutMismatch);
    }
    let plan: LocalR2cPlan = core.boundary_plan();
    match strided_phase_shape(
        &core.stages,
        Some(core.boundary),
        &plan,
        core.extra_shape.element_count,
        R::scalar_bytes(),
    ) {
        Ok(_) => {},
        Err(_) => {
            return Some(FftError::PreparationFailed);
        },
    }
    match &shared.storage {
        Some(HalfComplexStorage::Real(values)) => {
            if values.storage.len() != needs.real_len {
                return Some(FftError::StorageLayoutMismatch);
            }
            match validate_pairs_fit::<R>(capacity, needs.storage_bytes) {
                Ok(_) => None,
                Err(error) => Some(error),
            }
        },
        Some(HalfComplexStorage::Complex(values)) => {
            if values.storage.len() != needs.complex_len {
                return Some(FftError::StorageLayoutMismatch);
            }
            match validate_scalars_fit::<R>(capacity, needs.storage_bytes) {
                Ok(_) => None,
                Err(error) => Some(error),
            }
        },
        _ => Some(FftError::StorageLayoutMismatch),
    }
}

fn check_in_place_lines<R: FftReal, const N: usize, const M: usize>(
    core: &TransformPlanCore<N, M>,
    workspace: &R2cInPlaceWorkspace<R, N, M>,
) -> (error: Option<FftError>)
    requires
        core.wf(),
    ensures
        error == in_place_line_error(*core, *workspace),
{
    let (real_len, complex_len): (usize, usize) = core.r2c_lengths();
    let real_line = too_short(workspace.real_line.len(), real_len, "real line");
    if real_line.is_some() {
        return real_line;
    }
    let source_line = too_short(
        workspace.complex_source_line.len(),
        complex_len,
        "complex source line",
    );
    if source_line.is_some() {
        return source_line;
    }
    let complex_line = too_short(workspace.complex_line.len(), complex_len, "complex line");
    if complex_line.is_some() {
        return complex_line;
    }
    too_short(workspace.complex_strided_line.len(), core.strided_line_len, "complex line")
}

fn check_in_place_buffers<R: FftReal, const N: usize, const M: usize>(
    core: &TransformPlanCore<N, M>,
    workspace: &R2cInPlaceWorkspace<R, N, M>,
) -> (error: Option<FftError>)
    requires
        core.wf(),
    ensures
        error == in_place_buffer_error(*core, *workspace),
{
    let lens = validate_workspace_lengths_values(
        workspace.transpose.lens(workspace.fft_scratch.len()),
        core.lens,
    );
    if lens.is_some() {
        return lens;
    }
    if core.boundary > 0 {
        match &workspace.real_transpose {
            None => {
                return Some(FftError::WorkspaceMismatch);
            },
            Some(buffers) => {
                let real_lens = validate_workspace_lengths_values(
                    buffers.lens(workspace.fft_scratch.len()),
                    core.real_lens,
                );
                if real_lens.is_some() {
                    return real_lens;
                }
            },
        }
    }
    let source_line = check_source_line(core, &workspace.real_source_line);
    if source_line.is_some() {
        return source_line;
    }
    check_in_place_lines(core, workspace)
}

/// Checks the arguments of an in-place execution whose allocation holds `capacity` elements.
pub fn preflight_with_capacity<R: FftReal, const N: usize, const M: usize>(
    core: &TransformPlanCore<N, M>,
    direction: Direction,
    array: &R2cInPlaceArray<R, N, M>,
    workspace: &R2cInPlaceWorkspace<R, N, M>,
    capacity: usize,
) -> (error: Option<FftError>)
    requires
        core.wf(),
    ensures
        error == r2c_in_place_error(*core, direction, *array, *workspace, capacity),
{
    if array.core != core.id {
        return Some(FftError::Array(ArrayError::IncompatiblePencils));
    }
    if workspace.core != core.id {
        return Some(FftError::WorkspaceMismatch);
    }
    if array.state == R2cState::Poisoned {
        return Some(FftError::Array(ArrayError::Poisoned));
    }
    let expected: R2cState = match direction {
        Direction::Forward => R2cState::RealInput,
        _ => R2cState::ComplexOutput,
    };
    if array.state != expected {
        return Some(FftError::InputLayoutMismatch);
    }
    match &array.shared.storage {
        None => Some(FftError::StorageLayoutMismatch),
        Some(storage) => {
            if !check_inactive(core, direction, &array.shared) {
                return Some(FftError::WorkspaceMismatch);
            }
            let side = check_storage_side(core, direction, storage);
            if side.is_some() {
                return side;
            }
            let len = check_storage_len(core, &array.shared, capacity);
            if len.is_some() {
                return len;
            }
            check_in_place_buffers(core, workspace)
        },
    }
}

/// Elements that the allocation of an in-place array holds at least.
pub open spec fn stored_len<R, const N: usize, const M: usize>(
    shared: SharedStorage<R, N, M>,
) -> int {
    match shared.storage {
        None => 0,
        Some(HalfComplexStorage::Real(values)) => values.storage@.len() as int,
        Some(HalfComplexStorage::Complex(values)) => values.storage@.len() as int,
        Some(HalfComplexStorage::PoisonedReal(values)) => values@.len() as int,
        Some(HalfComplexStorage::PoisonedComplex(values)) => values@.len() as int,
    }
}

/// Returns how many elements the allocation of an in-place array holds. How many more than are
/// stored rests on the allocator.
pub fn allocated_len<R, const N: usize, const M: usize>(shared: &SharedStorage<R, N, M>) -> (capacity:
    usize)
    ensures
        stored_len(*shared) <= capacity,
{
    match &shared.storage {
        None => 0,
        Some(HalfComplexStorage::Real(values)) => capacity_of(&values.storage),
        Some(HalfComplexStorage::Complex(values)) => capacity_of(&values.storage),
        Some(HalfComplexStorage::PoisonedReal(values)) => capacity_of(values),
        Some(HalfComplexStorage::PoisonedComplex(values)) => capacity_of(values),
    }
}

/// Checks the arguments of an in-place execution.
pub fn preflight_in_place<R: FftReal, const N: usize, const M: usize>(
    core: &TransformPlanCore<N, M>,
    direction: Direction,
    array: &R2cInPlaceArray<R, N, M>,
    workspace: &R2cInPlaceWorkspace<R, N, M>,
) -> (error: Option<FftError>)
    requires
        core.wf(),
    ensures
        exists|capacity: usize|
            stored_len(array.shared) <= capacity && error == #[trigger] r2c_in_place_error(
                *core,
                direction,
                *array,
                *workspace,
                capacity,
            ),
{
    preflight_with_capacity(core, direction, array, workspace, allocated_len(&array.shared))
}

} // verus!
