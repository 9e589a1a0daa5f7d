//! Real-to-real and Hartley plans.

use vstd::prelude::*;

use crate::array::ManyPencilArray;
use crate::array::PencilArray;
use crate::error::ArrayError;
use crate::error::FftError;
use crate::error::R2rError;
use crate::layout::memory_stride;
use crate::layout::Direction;
use crate::layout::DistributedLayout;
use crate::layout::ExtraShape;
use crate::layout::Pencil;
use crate::layout::R2rState;
use crate::local::R2rKind;
use crate::local::R2rLocal;
use crate::mixed_prepare::strided_line;
use crate::prepare::largest_of;
use crate::prepare::lemma_largest_push;
use crate::registry::all_distinct;
use crate::registry::distinct_layouts;
use crate::registry::has_layout;
use crate::registry::is_empty_room;
use crate::registry::largest_local_len;
use crate::registry::lemma_distinct_layouts;
use crate::registry::outputs_of;
use crate::registry::registered_stage_pencils;
use crate::registry::room_for;
use crate::registry::stages_wf;
use crate::registry::Stage;
use crate::run::Launch;
use crate::run::Transacted;
use crate::scalar::Complex;
use crate::scalar::FftReal;
use crate::scalar::R2rScalar;
use crate::schedule::Itinerary;
use crate::schedule::Mode;
use crate::schedule::RouteKind;
use crate::sweep::max_len;
use crate::transition::eager_exchanges;
use crate::transition::eager_list;
use crate::transition::Transition;
use crate::words::word_for;
use crate::words::Operation;
use crate::words::PlanFamily;
use crate::workspace::all_are;
use crate::workspace::allocation_error;
use crate::workspace::filled_array;
use crate::workspace::first_of;
use crate::workspace::freshly_registered;
use crate::workspace::initialized_vec_in;
use crate::workspace::lens_error;
use crate::workspace::no_room;
use crate::workspace::short_error;
use crate::workspace::some_allocation_error;
use crate::workspace::too_short;
use crate::workspace::validate_embedding_len;
use crate::workspace::validate_workspace_lengths_values;
use crate::workspace::verdict;
use crate::workspace::zero_complex;
use crate::workspace::CommonLens;
use crate::workspace::TransposeWorkspace;

verus! {

/// What a real-to-real or Hartley plan consists of.
#[derive(Debug)]
pub struct R2rCore<const N: usize, const M: usize> {
    /// Tells this plan from others.
    pub id: u64,
    /// Where each stage works.
    pub stages: Vec<Stage<N, M>>,
    /// The kernel of each stage.
    pub locals: Vec<R2rLocal>,
    /// The exchanges between the stages.
    pub transitions: Vec<Transition>,
    /// The extra dimensions.
    pub extra_shape: ExtraShape,
    /// The kind along each axis of a real-to-real plan.
    pub kinds: [Option<R2rKind>; N],
    /// The words that processes agree on.
    pub descriptor: Vec<u64>,
    /// How values are exchanged and laid out.
    pub layout: DistributedLayout,
    /// Elements of the embedding line.
    pub embedding_len: usize,
    /// Elements of the scratch buffer, and those that exchanges send and receive.
    pub lens: CommonLens,
    /// Elements of the line for stages whose lines do not lie in one piece.
    pub strided_line_len: usize,
}

/// Buffers of an out-of-place execution.
#[derive(Debug)]
pub struct R2rWorkspace<T: R2rScalar, const N: usize, const M: usize> {
    /// The plan it was made for.
    pub core: u64,
    /// The values between the stages.
    pub intermediate: ManyPencilArray<T, N, M>,
    /// The buffers of exchanges.
    pub transpose: TransposeWorkspace<T>,
    /// The embedding line.
    pub embedding_line: Vec<Complex<T::Real>>,
    /// The scratch buffer.
    pub fft_scratch: Vec<Complex<T::Real>>,
    /// The line for stages whose lines do not lie in one piece.
    pub line_buffer: Vec<T>,
}

/// An array that is transformed in place.
#[derive(Debug)]
pub struct R2rInPlaceArray<T: R2rScalar, const N: usize, const M: usize> {
    /// The plan it was made for.
    pub core: u64,
    /// The values.
    pub array: ManyPencilArray<T, N, M>,
    /// Which side of the transform they are on.
    pub state: R2rState,
}

/// Buffers of an in-place execution.
#[derive(Debug)]
pub struct R2rInPlaceWorkspace<T: R2rScalar, const N: usize, const M: usize> {
    /// The plan it was made for.
    pub core: u64,
    /// The buffers of exchanges.
    pub transpose: TransposeWorkspace<T>,
    /// The embedding line.
    pub embedding_line: Vec<Complex<T::Real>>,
    /// The scratch buffer.
    pub fft_scratch: Vec<Complex<T::Real>>,
    /// The line for stages whose lines do not lie in one piece.
    pub line_buffer: Vec<T>,
}

/// The lines of real-to-real stages that do not lie in one piece.
pub open spec fn strided_r2r_lines<const N: usize, const M: usize>(
    stages: Seq<Stage<N, M>>,
    locals: Seq<R2rLocal>,
) -> Seq<usize> {
    Seq::new(
        stages.len(),
        |i: int|
            match locals[i].plan() {
                Some(plan) => strided_line(stages[i].output, stages[i].axis as int, plan.line_len),
                None => 0,
            },
    )
}

/// A stage with a kernel whose lines cannot be placed.
pub open spec fn unplaced_stage<const N: usize, const M: usize>(
    stages: Seq<Stage<N, M>>,
    locals: Seq<R2rLocal>,
    i: int,
) -> bool {
    locals[i].plan() is Some && stages[i].output.stride_along(stages[i].axis as int) is None
}

/// Returns the longest line of stages whose lines do not lie in one piece.
pub fn strided_r2r_line_len<const N: usize, const M: usize>(
    stages: &Vec<Stage<N, M>>,
    locals: &Vec<R2rLocal>,
) -> (result: Result<usize, R2rError>)
    requires
        stages_wf(stages@),
        locals@.len() == stages@.len(),
    ensures
        match result {
            Ok(len) => {
                &&& len == largest_of(strided_r2r_lines(stages@, locals@))
                &&& forall|i: int|
                    0 <= i < stages@.len() ==> !#[trigger] unplaced_stage(stages@, locals@, i)
            },
            Err(error) => {
                &&& error == R2rError::Fft(FftError::PreparationFailed)
                &&& exists|i: int|
                    0 <= i < stages@.len() && #[trigger] unplaced_stage(stages@, locals@, i)
            },
        },
{
    let mut required: usize = 0;
    let mut index: usize = 0;
    let ghost lines = strided_r2r_lines(stages@, locals@);
    assert(lines.take(0) =~= Seq::<usize>::empty());
    while index < stages.len()
        invariant
            index <= stages@.len(),
            stages_wf(stages@),
            locals@.len() == stages@.len(),
            lines == strided_r2r_lines(stages@, locals@),
            required == largest_of(lines.take(index as int)),
            forall|i: int| 0 <= i < index ==> !#[trigger] unplaced_stage(stages@, locals@, i),
        decreases stages@.len() - index,
    {
        proof {
            assert(lines.take(index + 1) =~= lines.take(index as int).push(lines[index as int]));
            lemma_largest_push(lines.take(index as int), lines[index as int]);
            assert(stages@[index as int].wf());
        }
        let line_len: Option<usize> = match locals[index] {
            R2rLocal::Transform(plan) => Some(plan.line_len),
            R2rLocal::Hartley(plan) => Some(plan.line_len),
            R2rLocal::Identity => None,
        };
        match line_len {
            Some(len) => match memory_stride(&stages[index].output, stages[index].axis) {
                Ok(stride) => {
                    assert(!unplaced_stage(stages@, locals@, index as int));
                    if stride > 1 {
                        required = max_len(required, len);
                    }
                },
                Err(_) => {
                    assert(unplaced_stage(stages@, locals@, index as int));
                    return Err(R2rError::Fft(FftError::PreparationFailed));
                },
            },
            None => {
                assert(!unplaced_stage(stages@, locals@, index as int));
            },
        }
        index += 1;
    }
    assert(lines.take(index as int) =~= lines);
    Ok(required)
}

impl<const N: usize, const M: usize> R2rCore<N, M> {
    /// The stages, their kernels and the exchanges between them belong together.
    pub open spec fn wf(&self) -> bool {
        &&& self.stages@.len() >= 2
        &&& self.locals@.len() == self.stages@.len()
        &&& self.transitions@.len() == self.stages@.len() - 1
        &&& stages_wf(self.stages@)
        &&& forall|i: int|
            0 <= i < self.stages@.len() ==> (#[trigger] self.stages@[i]).input
                == self.stages@[i].output
        &&& self.extra_shape.wf()
    }

    /// The layout that the plan starts from.
    pub open spec fn spec_input(&self) -> Pencil<N, M> {
        self.stages@[0].input
    }

    /// The layout that the plan leaves.
    pub open spec fn spec_output(&self) -> Pencil<N, M> {
        self.stages@.last().output
    }

    /// The layout that an execution reads.
    pub open spec fn source_pencil(&self, direction: Direction) -> Pencil<N, M> {
        if direction == Direction::Forward {
            self.spec_input()
        } else {
            self.spec_output()
        }
    }

    /// The layout that an execution writes.
    pub open spec fn destination_pencil(&self, direction: Direction) -> Pencil<N, M> {
        if direction == Direction::Forward {
            self.spec_output()
        } else {
            self.spec_input()
        }
    }

    /// Returns the layout that an execution reads.
    fn source_of(&self, direction: Direction) -> (pencil: Pencil<N, M>)
        requires
            self.wf(),
        ensures
            pencil == self.source_pencil(direction),
    {
        match direction {
            Direction::Forward => self.stages[0].input,
            _ => self.stages[self.stages.len() - 1].output,
        }
    }

    /// Returns the layout that an execution writes.
    fn destination_of(&self, direction: Direction) -> (pencil: Pencil<N, M>)
        requires
            self.wf(),
        ensures
            pencil == self.destination_pencil(direction),
    {
        match direction {
            Direction::Forward => self.stages[self.stages.len() - 1].output,
            _ => self.stages[0].input,
        }
    }

    /// The route of an execution.
    pub open spec fn itinerary(&self) -> Itinerary {
        Itinerary {
            kind: RouteKind::RealToReal,
            stages: self.stages@.len() as usize,
            boundary: 0,
        }
    }

    /// The layouts that intermediate values may lie in.
    pub open spec fn registered(&self) -> Seq<Pencil<N, M>> {
        distinct_layouts(outputs_of(self.stages@.skip(0)))
    }

    /// Whether a stage leaves the layout of `pencil`.
    fn leaves_layout(&self, pencil: &Pencil<N, M>) -> (found: bool)
        ensures
            found == has_layout(outputs_of(self.stages@), *pencil),
    {
        let ghost outputs = outputs_of(self.stages@);
        let mut index: usize = 0;
        while index < self.stages.len()
            invariant
                index <= self.stages@.len(),
                outputs == outputs_of(self.stages@),
                forall|i: int|
                    0 <= i < index ==> !(#[trigger] outputs[i]).spec_same_layout(pencil),
            decreases self.stages@.len() - index,
        {
            assert(outputs[index as int] == self.stages@[index as int].output);
            if self.stages[index].output.same_layout(pencil) {
                return true;
            }
            index += 1;
        }
        false
    }
}

/// What is wrong with the arguments of an out-of-place execution: the first of the checks that
/// fails.
pub open spec fn r2r_out_of_place_error<T: R2rScalar, const N: usize, const M: usize>(
    core: R2rCore<N, M>,
    direction: Direction,
    source: PencilArray<T, N, M>,
    destination: PencilArray<T, N, M>,
    workspace: R2rWorkspace<T, N, M>,
) -> Option<FftError> {
    let extra = core.extra_shape.dimensions@;
    if workspace.core != core.id {
        Some(FftError::WorkspaceMismatch)
    } else if !source.pencil.spec_same_layout(&core.source_pencil(direction)) {
        Some(FftError::InputLayoutMismatch)
    } else if !destination.pencil.spec_same_layout(&core.destination_pencil(direction)) {
        Some(FftError::OutputLayoutMismatch)
    } else if source.extra_shape.dimensions@ != extra || destination.extra_shape.dimensions@
        != extra {
        Some(FftError::ExtraShapeMismatch)
    } else {
        first_of(
            lens_error(
                CommonLens {
                    fft_scratch: workspace.fft_scratch@.len() as usize,
                    send: workspace.transpose.send@.len() as usize,
                    receive: workspace.transpose.receive@.len() as usize,
                },
                core.lens,
            ),
            first_of(
                short_error(
                    workspace.embedding_line@.len() as usize,
                    core.embedding_len,
                    "complex embedding",
                ),
                if workspace.intermediate.extra_shape.dimensions@ != extra {
                    Some(FftError::WorkspaceMismatch)
                } else {
                    match workspace.intermediate.spec_active_pencil() {
                        Err(error) => Some(FftError::Array(error)),
                        Ok(active) => if !has_layout(outputs_of(core.stages@), active) {
                            Some(FftError::WorkspaceMismatch)
                        } else {
                            short_error(
                                workspace.line_buffer@.len() as usize,
                                core.strided_line_len,
                                "real line",
                            )
                        },
                    }
                },
            ),
        )
    }
}

/// Checks the arguments of an out-of-place execution.
pub fn validate_r2r_out_of_place<T: R2rScalar, const N: usize, const M: usize>(
    core: &R2rCore<N, M>,
    direction: Direction,
    source: &PencilArray<T, N, M>,
    destination: &PencilArray<T, N, M>,
    workspace: &R2rWorkspace<T, N, M>,
) -> (error: Option<FftError>)
    requires
        core.wf(),
    ensures
        error == r2r_out_of_place_error(*core, direction, *source, *destination, *workspace),
{
    if workspace.core != core.id {
        return Some(FftError::WorkspaceMismatch);
    }
    if !source.pencil.same_layout(&core.source_of(direction)) {
        return Some(FftError::InputLayoutMismatch);
    }
    if !destination.pencil.same_layout(&core.destination_of(direction)) {
        return Some(FftError::OutputLayoutMismatch);
    }
    if !source.extra_shape.same(&core.extra_shape) || !destination.extra_shape.same(
        &core.extra_shape,
    ) {
        return Some(FftError::ExtraShapeMismatch);
    }
    let lens = validate_workspace_lengths_values(
        workspace.transpose.lens(workspace.fft_scratch.len()),
        core.lens,
    );
    if lens.is_some() {
        return lens;
    }
    let embedding = validate_embedding_len(workspace.embedding_line.len(), core.embedding_len);
    if embedding.is_some() {
        return embedding;
    }
    if !workspace.intermediate.extra_shape.same(&core.extra_shape) {
        return Some(FftError::WorkspaceMismatch);
    }
    match workspace.intermediate.active_pencil() {
        Err(error) => Some(FftError::Array(error)),
        Ok(active) => {
            if !core.leaves_layout(&active) {
                return Some(FftError::WorkspaceMismatch);
            }
            too_short(workspace.line_buffer.len(), core.strided_line_len, "real line")
        },
    }
}

/// The state that an in-place execution starts from.
pub open spec fn state_before(direction: Direction) -> R2rState {
    if direction == Direction::Forward {
        R2rState::Input
    } else {
        R2rState::Output
    }
}

/// The state that an in-place execution leaves.
pub open spec fn state_behind(direction: Direction) -> R2rState {
    if direction == Direction::Forward {
        R2rState::Output
    } else {
        R2rState::Input
    }
}

/// Returns the state that an in-place execution leaves.
pub fn state_after(direction: Direction) -> (state: R2rState)
    ensures
        state == state_behind(direction),
{
    match direction {
        Direction::Forward => R2rState::Output,
        _ => R2rState::Input,
    }
}

/// What is wrong with the arguments of an in-place execution: the first of the checks that fails.
pub open spec fn r2r_in_place_error<T: R2rScalar, const N: usize, const M: usize>(
    core: R2rCore<N, M>,
    direction: Direction,
    array: R2rInPlaceArray<T, N, M>,
    workspace: R2rInPlaceWorkspace<T, N, M>,
) -> Option<FftError> {
    if array.core != core.id {
        Some(FftError::Array(ArrayError::IncompatiblePencils))
    } else if workspace.core != core.id {
        Some(FftError::WorkspaceMismatch)
    } else if array.state == R2rState::Poisoned {
        Some(FftError::Array(ArrayError::Poisoned))
    } else if array.state != state_before(direction) {
        Some(FftError::InputLayoutMismatch)
    } else if array.array.extra_shape.dimensions@ != core.extra_shape.dimensions@ {
        Some(FftError::ExtraShapeMismatch)
    } else {
        match array.array.spec_active_pencil() {
            Err(error) => Some(FftError::Array(error)),
            Ok(active) => if !active.spec_same_layout(&core.source_pencil(direction)) {
                Some(FftError::InputLayoutMismatch)
            } else {
                first_of(
                    lens_error(
                        CommonLens {
                            fft_scratch: workspace.fft_scratch@.len() as usize,
                            send: workspace.transpose.send@.len() as usize,
                            receive: workspace.transpose.receive@.len() as usize,
                        },
                        core.lens,
                    ),
                    first_of(
                        short_error(
                            workspace.embedding_line@.len() as usize,
                            core.embedding_len,
                            "complex embedding",
                        ),
                        short_error(
                            workspace.line_buffer@.len() as usize,
                            core.strided_line_len,
                            "real line",
                        ),
                    ),
                )
            },
        }
    }
}

/// Checks the arguments of an in-place execution.
pub fn validate_r2r_in_place<T: R2rScalar, const N: usize, const M: usize>(
    core: &R2rCore<N, M>,
    direction: Direction,
    array: &R2rInPlaceArray<T, N, M>,
    workspace: &R2rInPlaceWorkspace<T, N, M>,
) -> (error: Option<FftError>)
    requires
        core.wf(),
    ensures
        error == r2r_in_place_error(*core, direction, *array, *workspace),
{
    if array.core != core.id {
        return Some(FftError::Array(ArrayError::IncompatiblePencils));
    }
    if workspace.core != core.id {
        return Some(FftError::WorkspaceMismatch);
    }
    if array.state == R2rState::Poisoned {
        return Some(FftError::Array(ArrayError::Poisoned));
    }
    let expected: R2rState = match direction {
        Direction::Forward => R2rState::Input,
        _ => R2rState::Output,
    };
    if array.state != expected {
        return Some(FftError::InputLayoutMismatch);
    }
    if !array.array.extra_shape.same(&core.extra_shape) {
        return Some(FftError::ExtraShapeMismatch);
    }
    match array.array.active_pencil() {
        Err(error) => {
            return Some(FftError::Array(error));
        },
        Ok(active) => {
            if !active.same_layout(&core.source_of(direction)) {
                return Some(FftError::InputLayoutMismatch);
            }
        },
    }
    let lens = validate_workspace_lengths_values(
        workspace.transpose.lens(workspace.fft_scratch.len()),
        core.lens,
    );
    if lens.is_some() {
        return lens;
    }
    let embedding = validate_embedding_len(workspace.embedding_line.len(), core.embedding_len);
    if embedding.is_some() {
        return embedding;
    }
    too_short(workspace.line_buffer.len(), core.strided_line_len, "real line")
}

impl<const N: usize, const M: usize> R2rCore<N, M> {
    fn route(&self) -> (route: Itinerary)
        ensures
            route == self.itinerary(),
            route.stages == self.stages@.len(),
    {
        Itinerary { kind: RouteKind::RealToReal, stages: self.stages.len(), boundary: 0 }
    }

    /// Prepares an out-of-place execution.
    pub fn launch<T: R2rScalar>(
        &self,
        family: PlanFamily,
        direction: Direction,
        source: &PencilArray<T, N, M>,
        destination: &PencilArray<T, N, M>,
        workspace: &R2rWorkspace<T, N, M>,
    ) -> (launch: Launch<R2rError>)
        requires
            self.wf(),
        ensures
            launch.describes(
                (Operation::Run { family, direction, in_place: false }),
                direction,
                r2r_out_of_place_error(*self, direction, *source, *destination, *workspace),
                self.itinerary().list(
                    direction,
                    Mode::OutOfPlace,
                    eager_exchanges(self.transitions@, direction),
                ),
            ),
    {
        let eager: Vec<bool> = eager_list(&self.transitions, direction);
        Launch {
            operation: word_for(Operation::Run { family, direction, in_place: false }),
            direction,
            preflight: verdict(
                validate_r2r_out_of_place(self, direction, source, destination, workspace),
            ),
            steps: self.route().steps(direction, Mode::OutOfPlace, &eager),
        }
    }

    /// Prepares an in-place execution.
    pub fn launch_in_place<T: R2rScalar>(
        &self,
        family: PlanFamily,
        direction: Direction,
        array: &R2rInPlaceArray<T, N, M>,
        workspace: &R2rInPlaceWorkspace<T, N, M>,
    ) -> (launch: Launch<R2rError>)
        requires
            self.wf(),
        ensures
            launch.describes(
                (Operation::Run { family, direction, in_place: true }),
                direction,
                r2r_in_place_error(*self, direction, *array, *workspace),
                self.itinerary().list(
                    direction,
                    Mode::InPlace,
                    eager_exchanges(self.transitions@, direction),
                ),
            ),
    {
        let eager: Vec<bool> = eager_list(&self.transitions, direction);
        Launch {
            operation: word_for(Operation::Run { family, direction, in_place: true }),
            direction,
            preflight: verdict(validate_r2r_in_place(self, direction, array, workspace)),
            steps: self.route().steps(direction, Mode::InPlace, &eager),
        }
    }
}

impl<T: R2rScalar, const N: usize, const M: usize> R2rInPlaceArray<T, N, M> {
    /// Returns the state of the array.
    pub fn state(&self) -> (state: R2rState)
        ensures
            state == self.state,
    {
        self.state
    }

    /// The array while an execution is under way.
    pub open spec fn poisoned(self) -> R2rInPlaceArray<T, N, M> {
        R2rInPlaceArray { core: self.core, array: self.array, state: R2rState::Poisoned }
    }

    /// Checks that no execution was interrupted.
    pub fn ensure_viewable(&self) -> (result: Result<(), R2rError>)
        ensures
            result == if self.state == R2rState::Poisoned {
                Err::<(), R2rError>(R2rError::Fft(FftError::Array(ArrayError::Poisoned)))
            } else {
                Ok(())
            },
    {
        match self.state {
            R2rState::Poisoned => Err(R2rError::Fft(FftError::Array(ArrayError::Poisoned))),
            _ => Ok(()),
        }
    }

    /// Returns the elements of the active layout, unless an execution was interrupted.
    pub fn view(&self) -> (result: Result<&[T], R2rError>)
        requires
            self.array.wf(),
        ensures
            match result {
                Ok(view) => {
                    &&& self.state != R2rState::Poisoned
                    &&& self.array.active is Some
                    &&& view@ == self.array.storage@.subrange(0, self.array.active_len())
                },
                Err(error) => {
                    &&& error == R2rError::Fft(FftError::Array(ArrayError::Poisoned))
                    &&& self.state == R2rState::Poisoned || self.array.active is None
                },
            },
    {
        match self.ensure_viewable() {
            Ok(_) => {},
            Err(error) => {
                return Err(error);
            },
        }
        match self.array.active_view() {
            Ok(view) => Ok(view),
            Err(error) => Err(R2rError::Fft(FftError::Array(error))),
        }
    }

    /// Returns the elements of the active layout for writing, unless an execution was
    /// interrupted.
    pub fn view_mut(&mut self) -> (result: Result<&mut [T], R2rError>)
        requires
            old(self).array.wf(),
        ensures
            final(self).core == old(self).core,
            final(self).state == old(self).state,
            final(self).array.pencils == old(self).array.pencils,
            final(self).array.extra_shape == old(self).array.extra_shape,
            final(self).array.active == old(self).array.active,
            match result {
                Ok(view) => {
                    &&& old(self).state != R2rState::Poisoned
                    &&& old(self).array.active is Some
                    &&& view@ == old(self).array.storage@.subrange(0, old(self).array.active_len())
                    &&& final(self).array.storage@ == final(view)@ + old(self).array.storage@.subrange(
                        old(self).array.active_len(),
                        old(self).array.storage@.len() as int,
                    )
                },
                Err(error) => {
                    &&& error == R2rError::Fft(FftError::Array(ArrayError::Poisoned))
                    &&& old(self).state == R2rState::Poisoned || old(self).array.active is None
                    &&& final(self).array.storage == old(self).array.storage
                },
            },
    {
        match self.ensure_viewable() {
            Ok(_) => {},
            Err(error) => {
                return Err(error);
            },
        }
        match self.array.active_view_mut() {
            Ok(view) => Ok(view),
            Err(error) => Err(R2rError::Fft(FftError::Array(error))),
        }
    }
}

/// A workspace that was just allocated for a plan.
pub open spec fn fresh_r2r_workspace<T: R2rScalar, const N: usize, const M: usize>(
    core: R2rCore<N, M>,
    workspace: R2rWorkspace<T, N, M>,
) -> bool {
    let zero = [T::Real::zero_bits(), T::Real::zero_bits()];
    &&& workspace.core == core.id
    &&& freshly_registered(
        workspace.intermediate,
        core.registered(),
        core.extra_shape,
        T::zero_value(),
    )
    &&& workspace.transpose.filled(core.lens.send, core.lens.receive, T::zero_value())
    &&& all_are(workspace.embedding_line@, core.embedding_len as int, zero)
    &&& all_are(workspace.fft_scratch@, core.lens.fft_scratch as int, zero)
    &&& all_are(workspace.line_buffer@, core.strided_line_len as int, T::zero_value())
}

/// An in-place array that was just allocated for a plan.
pub open spec fn fresh_r2r_array<T: R2rScalar, const N: usize, const M: usize>(
    core: R2rCore<N, M>,
    array: R2rInPlaceArray<T, N, M>,
) -> bool {
    &&& array.core == core.id
    &&& array.state == R2rState::Input
    &&& freshly_registered(array.array, core.registered(), core.extra_shape, T::zero_value())
}

/// An in-place workspace that was just allocated for a plan.
pub open spec fn fresh_r2r_in_place_workspace<T: R2rScalar, const N: usize, const M: usize>(
    core: R2rCore<N, M>,
    workspace: R2rInPlaceWorkspace<T, N, M>,
) -> bool {
    let zero = [T::Real::zero_bits(), T::Real::zero_bits()];
    &&& workspace.core == core.id
    &&& workspace.transpose.filled(core.lens.send, core.lens.receive, T::zero_value())
    &&& all_are(workspace.embedding_line@, core.embedding_len as int, zero)
    &&& all_are(workspace.fft_scratch@, core.lens.fft_scratch as int, zero)
    &&& all_are(workspace.line_buffer@, core.strided_line_len as int, T::zero_value())
}

/// Answers to the requests for the buffers of a plan: each is an empty list with room, or nothing.
pub struct R2rRooms<T: R2rScalar> {
    /// What is sent.
    pub send: Option<Vec<T>>,
    /// What is received.
    pub receive: Option<Vec<T>>,
    /// The embedding line.
    pub embedding: Option<Vec<Complex<T::Real>>>,
    /// The scratch buffer.
    pub scratch: Option<Vec<Complex<T::Real>>>,
    /// The strided line.
    pub line: Option<Vec<T>>,
}

impl<T: R2rScalar> R2rRooms<T> {
    /// The lists hold nothing yet.
    pub open spec fn wf(&self) -> bool {
        &&& is_empty_room(self.send)
        &&& is_empty_room(self.receive)
        &&& is_empty_room(self.embedding)
        &&& is_empty_room(self.scratch)
        &&& is_empty_room(self.line)
    }
}

impl<const N: usize, const M: usize> R2rCore<N, M> {
    /// Elements of the registered layouts.
    pub open spec fn registered_len(&self) -> int {
        largest_local_len(self.registered()) * self.extra_shape.element_count
    }

    /// Elements of the buffers that an execution needs, each of which may fail to be allocated.
    pub open spec fn buffer_lens(&self) -> Seq<int> {
        seq![
            self.stages@.len() as int,
            self.registered_len(),
            self.lens.send as int,
            self.lens.receive as int,
            self.embedding_len as int,
            self.lens.fft_scratch as int,
            self.strided_line_len as int,
        ]
    }

    proof fn lemma_registered(&self)
        requires
            self.wf(),
        ensures
            self.registered().len() > 0,
            all_distinct(self.registered()),
    {
        let outputs = outputs_of(self.stages@.skip(0));
        lemma_distinct_layouts(outputs);
        assert(has_layout(self.registered(), outputs[0]));
    }

    /// Allocates the values of all stages, in the first registered layout.
    pub fn allocate_registered<T: R2rScalar>(&self) -> (result: Result<
        ManyPencilArray<T, N, M>,
        R2rError,
    >)
        requires
            self.wf(),
        ensures
            match result {
                Ok(array) => freshly_registered(
                    array,
                    self.registered(),
                    self.extra_shape,
                    T::zero_value(),
                ),
                Err(error) => error matches R2rError::Fft(fault) && some_allocation_error(
                    fault,
                    self.buffer_lens(),
                ),
            },
    {
        proof {
            self.lemma_registered();
        }
        let ghost lens = self.buffer_lens();
        let count: usize = self.stages.len();
        assert(lens[0] == count);
        let pencils: Vec<Pencil<N, M>> = match registered_stage_pencils(&self.stages, 0) {
            Ok(pencils) => pencils,
            Err(fault) => {
                assert(allocation_error(fault, lens[0]));
                return Err(R2rError::Fft(fault));
            },
        };
        match ManyPencilArray::from_elem(&pencils, &self.extra_shape, T::r2r_zero()) {
            Ok(array) => Ok(array),
            Err(fault) => {
                assert(allocation_error(fault, lens[1]));
                Err(R2rError::Fft(fault))
            },
        }
    }

    /// Why the buffers cannot be allocated: the first one that there is no room for.
    pub open spec fn buffers_fault<T: R2rScalar>(&self, rooms: R2rRooms<T>) -> Option<FftError> {
        if rooms.send is None {
            no_room(self.lens.send)
        } else if rooms.receive is None {
            no_room(self.lens.receive)
        } else if rooms.embedding is None {
            no_room(self.embedding_len)
        } else if rooms.scratch is None {
            no_room(self.lens.fft_scratch)
        } else if rooms.line is None {
            no_room(self.strided_line_len)
        } else {
            None
        }
    }

    /// Fills the room that there is for the buffers of an in-place execution.
    pub fn allocate_in_place_workspace_in<T: R2rScalar>(&self, rooms: R2rRooms<T>) -> (result: Result<
        R2rInPlaceWorkspace<T, N, M>,
        R2rError,
    >)
        requires
            rooms.wf(),
        ensures
            match self.buffers_fault(rooms) {
                None => result matches Ok(workspace) && fresh_r2r_in_place_workspace(
                    *self,
                    workspace,
                ),
                Some(fault) => result == Err::<R2rInPlaceWorkspace<T, N, M>, R2rError>(
                    R2rError::Fft(fault),
                ),
            },
    {
        let zero: Complex<T::Real> = zero_complex::<T::Real>();
        let transpose = match TransposeWorkspace::allocate_in(
            rooms.send,
            rooms.receive,
            self.lens.send,
            self.lens.receive,
            T::r2r_zero(),
        ) {
            Ok(elements) => elements,
            Err(fault) => {
                return Err(R2rError::Fft(fault));
            },
        };
        let embedding_line = match initialized_vec_in(rooms.embedding, self.embedding_len, zero) {
            Ok(elements) => elements,
            Err(fault) => {
                return Err(R2rError::Fft(fault));
            },
        };
        let fft_scratch = match initialized_vec_in(rooms.scratch, self.lens.fft_scratch, zero) {
            Ok(elements) => elements,
            Err(fault) => {
                return Err(R2rError::Fft(fault));
            },
        };
        let line_buffer = match initialized_vec_in(
            rooms.line,
            self.strided_line_len,
            T::r2r_zero(),
        ) {
            Ok(elements) => elements,
            Err(fault) => {
                return Err(R2rError::Fft(fault));
            },
        };
        Ok(
            R2rInPlaceWorkspace {
                core: self.id,
                transpose,
                embedding_line,
                fft_scratch,
                line_buffer,
            },
        )
    }

    /// Allocates the buffers of an in-place execution. Whether there is room rests on the machine;
    /// [`R2rCore::allocate_in_place_workspace_in`] says what follows for each answer.
    pub fn allocate_in_place_workspace<T: R2rScalar>(&self) -> (result: Result<
        R2rInPlaceWorkspace<T, N, M>,
        R2rError,
    >)
        ensures
            match result {
                Ok(workspace) => fresh_r2r_in_place_workspace(*self, workspace),
                Err(error) => error matches R2rError::Fft(fault) && some_allocation_error(
                    fault,
                    self.buffer_lens(),
                ),
            },
    {
        let ghost lens = self.buffer_lens();
        let rooms = R2rRooms::<T> {
            send: room_for(self.lens.send),
            receive: room_for(self.lens.receive),
            embedding: room_for(self.embedding_len),
            scratch: room_for(self.lens.fft_scratch),
            line: room_for(self.strided_line_len),
        };
        proof {
            assert(lens[2] == self.lens.send && lens[3] == self.lens.receive);
            assert(lens[4] == self.embedding_len && lens[5] == self.lens.fft_scratch);
            assert(lens[6] == self.strided_line_len);
        }
        self.allocate_in_place_workspace_in(rooms)
    }

    /// Allocates the buffers of an out-of-place execution.
    pub fn allocate_workspace<T: R2rScalar>(&self) -> (result: Result<
        R2rWorkspace<T, N, M>,
        R2rError,
    >)
        requires
            self.wf(),
        ensures
            match result {
                Ok(workspace) => fresh_r2r_workspace(*self, workspace),
                Err(error) => error matches R2rError::Fft(fault) && some_allocation_error(
                    fault,
                    self.buffer_lens(),
                ),
            },
    {
        let intermediate = match self.allocate_registered::<T>() {
            Ok(array) => array,
            Err(error) => {
                return Err(error);
            },
        };
        match self.allocate_in_place_workspace::<T>() {
            Ok(buffers) => Ok(
                R2rWorkspace {
                    core: self.id,
                    intermediate,
                    transpose: buffers.transpose,
                    embedding_line: buffers.embedding_line,
                    fft_scratch: buffers.fft_scratch,
                    line_buffer: buffers.line_buffer,
                },
            ),
            Err(error) => Err(error),
        }
    }

    /// Allocates an array for in-place executions.
    pub fn allocate_in_place<T: R2rScalar>(&self) -> (result: Result<
        R2rInPlaceArray<T, N, M>,
        R2rError,
    >)
        requires
            self.wf(),
        ensures
            match result {
                Ok(array) => fresh_r2r_array(*self, array),
                Err(error) => error matches R2rError::Fft(fault) && some_allocation_error(
                    fault,
                    self.buffer_lens(),
                ),
            },
    {
        match self.allocate_registered::<T>() {
            Ok(array) => Ok(R2rInPlaceArray { core: self.id, array, state: R2rState::Input }),
            Err(error) => Err(error),
        }
    }

    /// Allocates an array in one of the layouts of the plan.
    pub fn allocate_array<T: R2rScalar>(&self, pencil: &Pencil<N, M>) -> (result: Result<
        PencilArray<T, N, M>,
        R2rError,
    >)
        requires
            self.wf(),
            pencil.wf(),
        ensures
            match result {
                Ok(array) => filled_array(array, *pencil, self.extra_shape, T::zero_value()),
                Err(error) => error matches R2rError::Fft(fault) && allocation_error(
                    fault,
                    pencil.local_len * self.extra_shape.element_count,
                ),
            },
    {
        match PencilArray::from_elem(pencil, &self.extra_shape, T::r2r_zero()) {
            Ok(array) => Ok(array),
            Err(fault) => Err(R2rError::Fft(fault)),
        }
    }

    /// A plan accepts the arrays and the workspace that it allocated itself.
    pub proof fn law_own_workspace_accepted<T: R2rScalar>(
        &self,
        direction: Direction,
        source: PencilArray<T, N, M>,
        destination: PencilArray<T, N, M>,
        workspace: R2rWorkspace<T, N, M>,
    )
        requires
            self.wf(),
            filled_array(
                source,
                self.source_pencil(direction),
                self.extra_shape,
                T::zero_value(),
            ),
            filled_array(
                destination,
                self.destination_pencil(direction),
                self.extra_shape,
                T::zero_value(),
            ),
            fresh_r2r_workspace(*self, workspace),
        ensures
            r2r_out_of_place_error(*self, direction, source, destination, workspace) is None,
    {
        let outputs = outputs_of(self.stages@);
        assert(self.stages@.skip(0) =~= self.stages@);
        self.lemma_registered();
        lemma_distinct_layouts(outputs);
        let active = workspace.intermediate.pencils@[0];
        assert(outputs.contains(active));
        let k = choose|k: int| 0 <= k < outputs.len() && outputs[k] == active;
        assert(outputs[k].spec_same_layout(&active));
    }

    /// A plan accepts the in-place array and workspace that it allocated itself.
    pub proof fn law_own_array_accepted<T: R2rScalar>(
        &self,
        array: R2rInPlaceArray<T, N, M>,
        workspace: R2rInPlaceWorkspace<T, N, M>,
    )
        requires
            self.wf(),
            fresh_r2r_array(*self, array),
            fresh_r2r_in_place_workspace(*self, workspace),
        ensures
            r2r_in_place_error(*self, Direction::Forward, array, workspace) is None,
    {
        let outputs = outputs_of(self.stages@);
        assert(self.stages@.skip(0) =~= self.stages@);
        self.lemma_registered();
        lemma_distinct_layouts(outputs);
        assert(array.array.pencils@[0] == self.stages@[0].output);
    }
}

/// What an in-place execution leaves: the array that its body left, in the target state if the body
/// succeeded.
pub open spec fn transaction_done<T: R2rScalar, F: FnOnce(R2rInPlaceArray<T, N, M>) -> (R2rInPlaceArray<T, N, M>, Result<(), R2rError>), const N: usize, const M: usize>(
    body: F,
    before: R2rInPlaceArray<T, N, M>,
    target: R2rState,
    after: R2rInPlaceArray<T, N, M>,
    outcome: Result<(), R2rError>,
) -> bool {
    exists|left: R2rInPlaceArray<T, N, M>|
        {
            &&& #[trigger] body.ensures((before.poisoned(),), (left, outcome))
            &&& after.core == left.core
            &&& after.array == left.array
            &&& after.state == if outcome is Ok {
                target
            } else {
                left.state
            }
        }
}

/// Runs an in-place execution: while it is under way the array counts as interrupted, and only
/// success gives it the target state.
pub fn run_r2r_in_place_transaction<T: R2rScalar, F: FnOnce(R2rInPlaceArray<T, N, M>) -> (R2rInPlaceArray<T, N, M>, Result<(), R2rError>), const N: usize, const M: usize>(
    array: R2rInPlaceArray<T, N, M>,
    target: R2rState,
    body: F,
) -> (result: (R2rInPlaceArray<T, N, M>, Result<(), R2rError>))
    requires
        body.requires((array.poisoned(),)),
    ensures
        transaction_done(body, array, target, result.0, result.1),
{
    let poisoned = R2rInPlaceArray {
        core: array.core,
        array: array.array,
        state: R2rState::Poisoned,
    };
    assert(poisoned == array.poisoned());
    let (after, outcome) = body(poisoned);
    let ghost left = after;
    assert(body.ensures((array.poisoned(),), (left, outcome)));
    let state: R2rState = if outcome.is_ok() {
        target
    } else {
        after.state
    };
    let done = R2rInPlaceArray { core: after.core, array: after.array, state };
    assert(transaction_done(body, array, target, done, outcome));
    (done, outcome)
}

impl<T: R2rScalar, const N: usize, const M: usize> Transacted for R2rInPlaceArray<T, N, M> {
    open spec fn interrupted(self) -> Self {
        self.poisoned()
    }

    open spec fn completed(self, direction: Direction) -> Self {
        R2rInPlaceArray { core: self.core, array: self.array, state: state_behind(direction) }
    }

    fn interrupt(self) -> (marked: Self) {
        R2rInPlaceArray { core: self.core, array: self.array, state: R2rState::Poisoned }
    }

    fn complete(self, direction: Direction) -> (done: Self) {
        R2rInPlaceArray { core: self.core, array: self.array, state: state_after(direction) }
    }
}

} // verus!
