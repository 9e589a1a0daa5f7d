//! Mixed complex plans: what they consist of, their buffers and their preflights.

use vstd::prelude::*;

use crate::array::ManyPencilArray;
use crate::array::PencilArray;
use crate::error::ArrayError;
use crate::error::FftError;
use crate::error::MixedError;
use crate::layout::C2cState;
use crate::layout::Direction;
use crate::layout::DistributedLayout;
use crate::layout::ExtraShape;
use crate::layout::Pencil;
use crate::layout::TransposeMethod;
use crate::local::MixedComplexLocal;
use crate::mixed_prepare::MixedGraph;
use crate::registry::all_distinct;
use crate::registry::distinct_layouts;
use crate::registry::exact_pencil_list;
use crate::registry::has_layout;
use crate::registry::is_empty_room;
use crate::registry::largest_local_len;
use crate::registry::lemma_distinct_layouts;
use crate::registry::outputs_of;
use crate::registry::room_for;
use crate::registry::stages_wf;
use crate::registry::Stage;
use crate::run::Launch;
use crate::run::OverlapLaunch;
use crate::scalar::Complex;
use crate::scalar::FftReal;
use crate::schedule::Itinerary;
use crate::schedule::Mode;
use crate::schedule::RouteKind;
use crate::transition::eager_exchanges;
use crate::transition::eager_list;
use crate::transition::overlap_supported;
use crate::transition::Transition;
use crate::words::word_for;
use crate::words::Operation;
use crate::words::PlanFamily;
use crate::workspace::accepts_pencil;
use crate::workspace::all_are;
use crate::workspace::allocation_error;
use crate::workspace::filled_array;
use crate::workspace::first_of;
use crate::workspace::freshly_registered;
use crate::workspace::initialized_vec_in;
use crate::workspace::lens_error;
use crate::workspace::no_room;
use crate::workspace::pencil_accepted;
use crate::workspace::registered_error;
use crate::workspace::short_error;
use crate::workspace::some_allocation_error;
use crate::workspace::too_short;
use crate::workspace::validate_embedding_len;
use crate::workspace::validate_registered;
use crate::workspace::validate_workspace_lengths_values;
use crate::workspace::verdict;
use crate::workspace::zero_complex;
use crate::workspace::CommonLens;
use crate::workspace::TransposeWorkspace;

verus! {

/// What a mixed complex plan consists of.
#[derive(Debug)]
pub struct MixedC2cCore<const N: usize, const M: usize> {
    /// Tells this plan from others.
    pub id: u64,
    /// Where each stage works.
    pub stages: Vec<Stage<N, M>>,
    /// The kernel of each stage.
    pub locals: Vec<MixedComplexLocal>,
    /// The exchanges between the stages.
    pub transitions: Vec<Transition>,
    /// The layouts that values may lie in.
    pub registered_pencils: Vec<Pencil<N, M>>,
    /// The extra dimensions.
    pub extra_shape: ExtraShape,
    /// What is done along each axis, and with which kernels.
    pub graph: MixedGraph<N>,
    /// How values are exchanged and laid out.
    pub layout: DistributedLayout,
    /// The words that processes agree on.
    pub descriptor: Vec<u64>,
    /// Elements of the embedding line.
    pub embedding_len: usize,
    /// Elements of the scratch buffer, and those that exchanges send and receive.
    pub lens: CommonLens,
    /// Elements of the line for stages whose lines do not lie in one piece.
    pub strided_line_len: usize,
    /// Whether arrays must have the very layouts of the plan.
    pub strict_array_identity: bool,
}

/// Buffers of an out-of-place execution.
#[derive(Debug)]
pub struct MixedC2cWorkspace<R: FftReal, const N: usize, const M: usize> {
    /// The plan it was made for.
    pub core: u64,
    /// The values between the stages.
    pub intermediate: ManyPencilArray<Complex<R>, N, M>,
    /// The buffers of exchanges.
    pub transpose: TransposeWorkspace<Complex<R>>,
    /// The embedding line.
    pub embedding_line: Vec<Complex<R>>,
    /// The scratch buffer.
    pub fft_scratch: Vec<Complex<R>>,
    /// The line for stages whose lines do not lie in one piece.
    pub line_buffer: Vec<Complex<R>>,
}

/// An array that is transformed in place.
#[derive(Debug)]
pub struct MixedC2cInPlaceArray<R: FftReal, const N: usize, const M: usize> {
    /// The plan it was made for.
    pub core: u64,
    /// The values.
    pub array: ManyPencilArray<Complex<R>, N, M>,
    /// Which side of the transform they are on.
    pub state: C2cState,
}

/// Buffers of an in-place execution.
#[derive(Debug)]
pub struct MixedC2cInPlaceWorkspace<R: FftReal, const N: usize, const M: usize> {
    /// The plan it was made for.
    pub core: u64,
    /// The buffers of exchanges.
    pub transpose: TransposeWorkspace<Complex<R>>,
    /// The embedding line.
    pub embedding_line: Vec<Complex<R>>,
    /// The scratch buffer.
    pub fft_scratch: Vec<Complex<R>>,
    /// The line for stages whose lines do not lie in one piece.
    pub line_buffer: Vec<Complex<R>>,
}

impl<const N: usize, const M: usize> MixedC2cCore<N, M> {
    /// The stages, their kernels and the exchanges between them belong together.
    pub open spec fn wf(&self) -> bool {
        &&& self.stages@.len() >= 1
        &&& self.locals@.len() == self.stages@.len()
        &&& self.transitions@.len() == self.stages@.len() - 1
        &&& stages_wf(self.stages@)
        &&& forall|i: int|
            0 <= i < self.stages@.len() ==> (#[trigger] self.stages@[i]).input
                == self.stages@[i].output
        &&& self.registered_pencils@ == distinct_layouts(outputs_of(self.stages@))
        &&& self.extra_shape.wf()
    }

    /// The layout that the plan starts from.
    pub open spec fn spec_input(&self) -> Pencil<N, M> {
        self.stages@[0].input
    }

    /// The layout that the plan leaves.
    pub open spec fn spec_output(&self) -> Pencil<N, M> {
        self.stages@.last().output
    }

    /// The layout that an execution reads.
    pub open spec fn source_pencil(&self, direction: Direction) -> Pencil<N, M> {
        if direction == Direction::Forward {
            self.spec_input()
        } else {
            self.spec_output()
        }
    }

    /// The layout that an execution writes.
    pub open spec fn destination_pencil(&self, direction: Direction) -> Pencil<N, M> {
        if direction == Direction::Forward {
            self.spec_output()
        } else {
            self.spec_input()
        }
    }

    fn source_of(&self, direction: Direction) -> (pencil: Pencil<N, M>)
        requires
            self.wf(),
        ensures
            pencil == self.source_pencil(direction),
    {
        match direction {
            Direction::Forward => self.stages[0].input,
            _ => self.stages[self.stages.len() - 1].output,
        }
    }

    fn destination_of(&self, direction: Direction) -> (pencil: Pencil<N, M>)
        requires
            self.wf(),
        ensures
            pencil == self.destination_pencil(direction),
    {
        match direction {
            Direction::Forward => self.stages[self.stages.len() - 1].output,
            _ => self.stages[0].input,
        }
    }

    /// The route of an execution.
    pub open spec fn itinerary(&self) -> Itinerary {
        Itinerary {
            kind: RouteKind::MixedComplex,
            stages: self.stages@.len() as usize,
            boundary: 0,
        }
    }

    fn route(&self) -> (route: Itinerary)
        ensures
            route == self.itinerary(),
            route.stages == self.stages@.len(),
    {
        Itinerary { kind: RouteKind::MixedComplex, stages: self.stages.len(), boundary: 0 }
    }

    proof fn lemma_registered(&self)
        requires
            self.wf(),
        ensures
            self.registered_pencils@.len() > 0,
            all_distinct(self.registered_pencils@),
            self.registered_pencils@[0] == self.spec_input(),
    {
        lemma_distinct_layouts(outputs_of(self.stages@));
        assert(outputs_of(self.stages@)[0] == self.stages@[0].output);
    }
}

/// What is wrong with the arguments of an out-of-place execution: the first of the checks that
/// fails.
pub open spec fn mixed_c2c_error<R: FftReal, const N: usize, const M: usize>(
    core: MixedC2cCore<N, M>,
    direction: Direction,
    source: PencilArray<Complex<R>, N, M>,
    destination: PencilArray<Complex<R>, N, M>,
    workspace: MixedC2cWorkspace<R, N, M>,
) -> Option<FftError> {
    let extra = core.extra_shape.dimensions@;
    let strict = core.strict_array_identity;
    if workspace.core != core.id {
        Some(FftError::WorkspaceMismatch)
    } else if !accepts_pencil(strict, source.pencil, core.source_pencil(direction)) {
        Some(FftError::InputLayoutMismatch)
    } else if !accepts_pencil(strict, destination.pencil, core.destination_pencil(direction)) {
        Some(FftError::OutputLayoutMismatch)
    } else if source.extra_shape.dimensions@ != extra || destination.extra_shape.dimensions@
        != extra {
        Some(FftError::ExtraShapeMismatch)
    } else if workspace.intermediate.extra_shape.dimensions@ != extra {
        Some(FftError::WorkspaceMismatch)
    } else {
        first_of(
            registered_error(workspace.intermediate, core.registered_pencils@),
            first_of(
                lens_error(
                    CommonLens {
                        fft_scratch: workspace.fft_scratch@.len() as usize,
                        send: workspace.transpose.send@.len() as usize,
                        receive: workspace.transpose.receive@.len() as usize,
                    },
                    core.lens,
                ),
                first_of(
                    short_error(
                        workspace.embedding_line@.len() as usize,
                        core.embedding_len,
                        "complex embedding",
                    ),
                    short_error(
                        workspace.line_buffer@.len() as usize,
                        core.strided_line_len,
                        "complex line",
                    ),
                ),
            ),
        )
    }
}

/// Checks the arguments of an out-of-place execution.
pub fn validate_mixed_c2c_oop<R: FftReal, const N: usize, const M: usize>(
    core: &MixedC2cCore<N, M>,
    direction: Direction,
    source: &PencilArray<Complex<R>, N, M>,
    destination: &PencilArray<Complex<R>, N, M>,
    workspace: &MixedC2cWorkspace<R, N, M>,
) -> (error: Option<FftError>)
    requires
        core.wf(),
    ensures
        error == mixed_c2c_error(*core, direction, *source, *destination, *workspace),
{
    let strict: bool = core.strict_array_identity;
    if workspace.core != core.id {
        return Some(FftError::WorkspaceMismatch);
    }
    if !pencil_accepted(strict, &source.pencil, &core.source_of(direction)) {
        return Some(FftError::InputLayoutMismatch);
    }
    if !pencil_accepted(strict, &destination.pencil, &core.destination_of(direction)) {
        return Some(FftError::OutputLayoutMismatch);
    }
    if !source.extra_shape.same(&core.extra_shape) || !destination.extra_shape.same(
        &core.extra_shape,
    ) {
        return Some(FftError::ExtraShapeMismatch);
    }
    if !workspace.intermediate.extra_shape.same(&core.extra_shape) {
        return Some(FftError::WorkspaceMismatch);
    }
    let registry = validate_registered(&workspace.intermediate, &core.registered_pencils);
    if registry.is_some() {
        return registry;
    }
    let lens = validate_workspace_lengths_values(
        workspace.transpose.lens(workspace.fft_scratch.len()),
        core.lens,
    );
    if lens.is_some() {
        return lens;
    }
    let embedding = validate_embedding_len(workspace.embedding_line.len(), core.embedding_len);
    if embedding.is_some() {
        return embedding;
    }
    too_short(workspace.line_buffer.len(), core.strided_line_len, "complex line")
}

/// The state that an in-place execution starts from.
pub open spec fn c2c_state_before(direction: Direction) -> C2cState {
    if direction == Direction::Forward {
        C2cState::Input
    } else {
        C2cState::Output
    }
}

/// The state that an in-place execution leaves.
pub open spec fn c2c_state_behind(direction: Direction) -> C2cState {
    if direction == Direction::Forward {
        C2cState::Output
    } else {
        C2cState::Input
    }
}

/// What is wrong with the arguments of an in-place execution: the first of the checks that fails.
pub open spec fn mixed_c2c_in_place_error<R: FftReal, const N: usize, const M: usize>(
    core: MixedC2cCore<N, M>,
    direction: Direction,
    array: MixedC2cInPlaceArray<R, N, M>,
    workspace: MixedC2cInPlaceWorkspace<R, N, M>,
) -> Option<FftError> {
    if array.core != core.id {
        Some(FftError::Array(ArrayError::IncompatiblePencils))
    } else if workspace.core != core.id {
        Some(FftError::WorkspaceMismatch)
    } else if array.state == C2cState::Poisoned {
        Some(FftError::Array(ArrayError::Poisoned))
    } else if array.state != c2c_state_before(direction) {
        Some(FftError::InputLayoutMismatch)
    } else if array.array.extra_shape.dimensions@ != core.extra_shape.dimensions@ {
        Some(FftError::ExtraShapeMismatch)
    } else {
        first_of(
            registered_error(array.array, core.registered_pencils@),
            if array.array.spec_active_pencil() matches Ok(active) && active.spec_same_layout(
                &core.source_pencil(direction),
            ) {
                first_of(
                    lens_error(
                        CommonLens {
                            fft_scratch: workspace.fft_scratch@.len() as usize,
                            send: workspace.transpose.send@.len() as usize,
                            receive: workspace.transpose.receive@.len() as usize,
                        },
                        core.lens,
                    ),
                    first_of(
                        short_error(
                            workspace.embedding_line@.len() as usize,
                            core.embedding_len,
                            "complex embedding",
                        ),
                        short_error(
                            workspace.line_buffer@.len() as usize,
                            core.strided_line_len,
                            "complex line",
                        ),
                    ),
                )
            } else {
                Some(FftError::InputLayoutMismatch)
            },
        )
    }
}

/// Checks the arguments of an in-place execution.
pub fn validate_mixed_c2c_ip<R: FftReal, const N: usize, const M: usize>(
    core: &MixedC2cCore<N, M>,
    direction: Direction,
    array: &MixedC2cInPlaceArray<R, N, M>,
    workspace: &MixedC2cInPlaceWorkspace<R, N, M>,
) -> (error: Option<FftError>)
    requires
        core.wf(),
    ensures
        error == mixed_c2c_in_place_error(*core, direction, *array, *workspace),
{
    if array.core != core.id {
        return Some(FftError::Array(ArrayError::IncompatiblePencils));
    }
    if workspace.core != core.id {
        return Some(FftError::WorkspaceMismatch);
    }
    if array.state == C2cState::Poisoned {
        return Some(FftError::Array(ArrayError::Poisoned));
    }
    let expected: C2cState = match direction {
        Direction::Forward => C2cState::Input,
        _ => C2cState::Output,
    };
    if array.state != expected {
        return Some(FftError::InputLayoutMismatch);
    }
    if !array.array.extra_shape.same(&core.extra_shape) {
        return Some(FftError::ExtraShapeMismatch);
    }
    let registry = validate_registered(&array.array, &core.registered_pencils);
    if registry.is_some() {
        return registry;
    }
    let placed: bool = match array.array.active_pencil() {
        Ok(active) => active.same_layout(&core.source_of(direction)),
        Err(_) => false,
    };
    if !placed {
        return Some(FftError::InputLayoutMismatch);
    }
    let lens = validate_workspace_lengths_values(
        workspace.transpose.lens(workspace.fft_scratch.len()),
        core.lens,
    );
    if lens.is_some() {
        return lens;
    }
    let embedding = validate_embedding_len(workspace.embedding_line.len(), core.embedding_len);
    if embedding.is_some() {
        return embedding;
    }
    too_short(workspace.line_buffer.len(), core.strided_line_len, "complex line")
}

/// The operation of an execution, measured or not.
pub open spec fn run_operation(family: PlanFamily, direction: Direction, in_place: bool, timed: bool) -> Operation {
    if timed {
        Operation::Timed { family, direction, in_place }
    } else {
        Operation::Run { family, direction, in_place }
    }
}

/// Answers to the requests for the buffers of a plan: each is an empty list with room, or nothing.
pub struct MixedC2cRooms<R: FftReal> {
    /// What is sent.
    pub send: Option<Vec<Complex<R>>>,
    /// What is received.
    pub receive: Option<Vec<Complex<R>>>,
    /// The embedding line.
    pub embedding: Option<Vec<Complex<R>>>,
    /// The scratch buffer.
    pub scratch: Option<Vec<Complex<R>>>,
    /// The strided line.
    pub line: Option<Vec<Complex<R>>>,
}

impl<R: FftReal> MixedC2cRooms<R> {
    /// The lists hold nothing yet.
    pub open spec fn wf(&self) -> bool {
        &&& is_empty_room(self.send)
        &&& is_empty_room(self.receive)
        &&& is_empty_room(self.embedding)
        &&& is_empty_room(self.scratch)
        &&& is_empty_room(self.line)
    }
}

impl<const N: usize, const M: usize> MixedC2cCore<N, M> {
    /// Prepares an out-of-place execution, measured or not.
    pub fn launch<R: FftReal>(
        &self,
        direction: Direction,
        timed: bool,
        source: &PencilArray<Complex<R>, N, M>,
        destination: &PencilArray<Complex<R>, N, M>,
        workspace: &MixedC2cWorkspace<R, N, M>,
    ) -> (launch: Launch<MixedError>)
        requires
            self.wf(),
        ensures
            launch.describes(
                run_operation(PlanFamily::MixedC2c, direction, false, timed),
                direction,
                mixed_c2c_error(*self, direction, *source, *destination, *workspace),
                self.itinerary().list(
                    direction,
                    Mode::OutOfPlace,
                    eager_exchanges(self.transitions@, direction),
                ),
            ),
    {
        let eager: Vec<bool> = eager_list(&self.transitions, direction);
        let operation: Operation = if timed {
            Operation::Timed { family: PlanFamily::MixedC2c, direction, in_place: false }
        } else {
            Operation::Run { family: PlanFamily::MixedC2c, direction, in_place: false }
        };
        Launch {
            operation: word_for(operation),
            direction,
            preflight: verdict(
                validate_mixed_c2c_oop(self, direction, source, destination, workspace),
            ),
            steps: self.route().steps(direction, Mode::OutOfPlace, &eager),
        }
    }

    /// Prepares an in-place execution, measured or not.
    pub fn launch_in_place<R: FftReal>(
        &self,
        direction: Direction,
        timed: bool,
        array: &MixedC2cInPlaceArray<R, N, M>,
        workspace: &MixedC2cInPlaceWorkspace<R, N, M>,
    ) -> (launch: Launch<MixedError>)
        requires
            self.wf(),
        ensures
            launch.describes(
                run_operation(PlanFamily::MixedC2c, direction, true, timed),
                direction,
                mixed_c2c_in_place_error(*self, direction, *array, *workspace),
                self.itinerary().list(
                    direction,
                    Mode::InPlace,
                    eager_exchanges(self.transitions@, direction),
                ),
            ),
    {
        let eager: Vec<bool> = eager_list(&self.transitions, direction);
        let operation: Operation = if timed {
            Operation::Timed { family: PlanFamily::MixedC2c, direction, in_place: true }
        } else {
            Operation::Run { family: PlanFamily::MixedC2c, direction, in_place: true }
        };
        Launch {
            operation: word_for(operation),
            direction,
            preflight: verdict(validate_mixed_c2c_ip(self, direction, array, workspace)),
            steps: self.route().steps(direction, Mode::InPlace, &eager),
        }
    }

    /// Every exchange of an execution allows overlap.
    pub open spec fn overlaps(&self, direction: Direction) -> bool {
        forall|i: int|
            0 <= i < self.transitions@.len() ==> (#[trigger] self.transitions@[i]).spec_along(
                direction,
            ).spec_allows_overlap()
    }

    /// Prepares an execution with overlap.
    pub fn launch_overlap<R: FftReal>(
        &self,
        direction: Direction,
        source: &PencilArray<Complex<R>, N, M>,
        destination: &PencilArray<Complex<R>, N, M>,
        workspace: &MixedC2cWorkspace<R, N, M>,
    ) -> (launch: OverlapLaunch<MixedError>)
        requires
            self.wf(),
        ensures
            launch.describes(
                (Operation::Overlap { family: PlanFamily::MixedC2c, direction }),
                direction,
                self.layout.transpose_method == TransposeMethod::PointToPoint,
                mixed_c2c_error(*self, direction, *source, *destination, *workspace),
                self.overlaps(direction),
                self.itinerary().list(
                    direction,
                    Mode::Overlap,
                    eager_exchanges(self.transitions@, direction),
                ),
            ),
    {
        let eager: Vec<bool> = eager_list(&self.transitions, direction);
        OverlapLaunch {
            operation: word_for(Operation::Overlap { family: PlanFamily::MixedC2c, direction }),
            direction,
            transport: self.layout.transpose_method == TransposeMethod::PointToPoint,
            preflight: verdict(
                validate_mixed_c2c_oop(self, direction, source, destination, workspace),
            ),
            supported: overlap_supported(&self.transitions, direction),
            steps: self.route().steps(direction, Mode::Overlap, &eager),
        }
    }

    /// Elements of the buffers that an execution needs, each of which may fail to be allocated.
    pub open spec fn buffer_lens(&self) -> Seq<int> {
        seq![
            largest_local_len(self.registered_pencils@) * self.extra_shape.element_count,
            self.lens.send as int,
            self.lens.receive as int,
            self.embedding_len as int,
            self.lens.fft_scratch as int,
            self.strided_line_len as int,
        ]
    }

    /// Allocates the values of all stages, in the first registered layout.
    pub fn allocate_registered<R: FftReal>(&self) -> (result: Result<
        ManyPencilArray<Complex<R>, N, M>,
        MixedError,
    >)
        requires
            self.wf(),
        ensures
            match result {
                Ok(array) => freshly_registered(
                    array,
                    self.registered_pencils@,
                    self.extra_shape,
                    [R::zero_bits(), R::zero_bits()],
                ),
                Err(error) => error matches MixedError::Fft(fault) && some_allocation_error(
                    fault,
                    self.buffer_lens(),
                ),
            },
    {
        proof {
            self.lemma_registered();
        }
        let ghost lens = self.buffer_lens();
        match ManyPencilArray::from_elem(
            &self.registered_pencils,
            &self.extra_shape,
            zero_complex::<R>(),
        ) {
            Ok(array) => Ok(array),
            Err(fault) => {
                assert(allocation_error(fault, lens[0]));
                Err(MixedError::Fft(fault))
            },
        }
    }

    /// Why the buffers cannot be allocated: the first one that there is no room for.
    pub open spec fn buffers_fault<R: FftReal>(&self, rooms: MixedC2cRooms<R>) -> Option<FftError> {
        if rooms.send is None {
            no_room(self.lens.send)
        } else if rooms.receive is None {
            no_room(self.lens.receive)
        } else if rooms.embedding is None {
            no_room(self.embedding_len)
        } else if rooms.scratch is None {
            no_room(self.lens.fft_scratch)
        } else if rooms.line is None {
            no_room(self.strided_line_len)
        } else {
            None
        }
    }

    /// Fills the room that there is for the buffers of an in-place execution.
    pub fn allocate_buffers_in<R: FftReal>(&self, rooms: MixedC2cRooms<R>) -> (result: Result<
        MixedC2cInPlaceWorkspace<R, N, M>,
        MixedError,
    >)
        requires
            rooms.wf(),
        ensures
            match self.buffers_fault(rooms) {
                None => result matches Ok(workspace) && fresh_mixed_c2c_buffers(*self, workspace),
                Some(fault) => result == Err::<MixedC2cInPlaceWorkspace<R, N, M>, MixedError>(
                    MixedError::Fft(fault),
                ),
            },
    {
        let zero: Complex<R> = zero_complex::<R>();
        let transpose = match TransposeWorkspace::allocate_in(
            rooms.send,
            rooms.receive,
            self.lens.send,
            self.lens.receive,
            zero,
        ) {
            Ok(elements) => elements,
            Err(fault) => {
                return Err(MixedError::Fft(fault));
            },
        };
        let embedding_line = match initialized_vec_in(rooms.embedding, self.embedding_len, zero) {
            Ok(elements) => elements,
            Err(fault) => {
                return Err(MixedError::Fft(fault));
            },
        };
        let fft_scratch = match initialized_vec_in(rooms.scratch, self.lens.fft_scratch, zero) {
            Ok(elements) => elements,
            Err(fault) => {
                return Err(MixedError::Fft(fault));
            },
        };
        let line_buffer = match initialized_vec_in(rooms.line, self.strided_line_len, zero) {
            Ok(elements) => elements,
            Err(fault) => {
                return Err(MixedError::Fft(fault));
            },
        };
        Ok(
            MixedC2cInPlaceWorkspace {
                core: self.id,
                transpose,
                embedding_line,
                fft_scratch,
                line_buffer,
            },
        )
    }

    /// Allocates the buffers of an in-place execution. Whether there is room rests on the machine;
    /// [`MixedC2cCore::allocate_buffers_in`] says what follows for each answer.
    pub fn allocate_buffers<R: FftReal>(&self) -> (result: Result<
        MixedC2cInPlaceWorkspace<R, N, M>,
        MixedError,
    >)
        ensures
            match result {
                Ok(workspace) => fresh_mixed_c2c_buffers(*self, workspace),
                Err(error) => error matches MixedError::Fft(fault) && some_allocation_error(
                    fault,
                    self.buffer_lens(),
                ),
            },
    {
        let ghost lens = self.buffer_lens();
        let rooms = MixedC2cRooms::<R> {
            send: room_for(self.lens.send),
            receive: room_for(self.lens.receive),
            embedding: room_for(self.embedding_len),
            scratch: room_for(self.lens.fft_scratch),
            line: room_for(self.strided_line_len),
        };
        proof {
            assert(lens[1] == self.lens.send && lens[2] == self.lens.receive);
            assert(lens[3] == self.embedding_len && lens[4] == self.lens.fft_scratch);
            assert(lens[5] == self.strided_line_len);
        }
        self.allocate_buffers_in(rooms)
    }

    /// A plan accepts the arrays and the workspace that it allocated itself.
    pub proof fn law_own_workspace_accepted<R: FftReal>(
        &self,
        direction: Direction,
        source: PencilArray<Complex<R>, N, M>,
        destination: PencilArray<Complex<R>, N, M>,
        workspace: MixedC2cWorkspace<R, N, M>,
    )
        requires
            self.wf(),
            filled_array(
                source,
                self.source_pencil(direction),
                self.extra_shape,
                [R::zero_bits(), R::zero_bits()],
            ),
            filled_array(
                destination,
                self.destination_pencil(direction),
                self.extra_shape,
                [R::zero_bits(), R::zero_bits()],
            ),
            fresh_mixed_c2c_workspace(*self, workspace),
        ensures
            mixed_c2c_error(*self, direction, source, destination, workspace) is None,
    {
        self.lemma_own_registry();
        let stored: usize = workspace.intermediate.storage.len();
        assert(workspace.intermediate.storage@.len() == stored);
    }

    /// A plan accepts the in-place array and workspace that it allocated itself.
    pub proof fn law_own_array_accepted<R: FftReal>(
        &self,
        array: MixedC2cInPlaceArray<R, N, M>,
        workspace: MixedC2cInPlaceWorkspace<R, N, M>,
    )
        requires
            self.wf(),
            fresh_mixed_c2c_array(*self, array),
            fresh_mixed_c2c_buffers(*self, workspace),
        ensures
            mixed_c2c_in_place_error(*self, Direction::Forward, array, workspace) is None,
    {
        self.lemma_own_registry();
        let stored: usize = array.array.storage.len();
        assert(array.array.storage@.len() == stored);
    }

    proof fn lemma_own_registry(&self)
        requires
            self.wf(),
        ensures
            self.registered_pencils@.len() > 0,
            self.registered_pencils@[0] == self.spec_input(),
            exact_pencil_list(self.registered_pencils@, self.registered_pencils@),
            has_layout(self.registered_pencils@, self.registered_pencils@[0]),
    {
        let registered = self.registered_pencils@;
        self.lemma_registered();
        assert forall|i: int| 0 <= i < registered.len() implies has_layout(
            registered,
            #[trigger] registered[i],
        ) by {
            assert(registered[i].spec_same_layout(&registered[i]));
        }
    }
}

/// Buffers that were just allocated for a plan.
pub open spec fn fresh_mixed_c2c_buffers<R: FftReal, const N: usize, const M: usize>(
    core: MixedC2cCore<N, M>,
    workspace: MixedC2cInPlaceWorkspace<R, N, M>,
) -> bool {
    let zero = [R::zero_bits(), R::zero_bits()];
    &&& workspace.core == core.id
    &&& workspace.transpose.filled(core.lens.send, core.lens.receive, zero)
    &&& all_are(workspace.embedding_line@, core.embedding_len as int, zero)
    &&& all_are(workspace.fft_scratch@, core.lens.fft_scratch as int, zero)
    &&& all_are(workspace.line_buffer@, core.strided_line_len as int, zero)
}

/// A workspace that was just allocated for a plan.
pub open spec fn fresh_mixed_c2c_workspace<R: FftReal, const N: usize, const M: usize>(
    core: MixedC2cCore<N, M>,
    workspace: MixedC2cWorkspace<R, N, M>,
) -> bool {
    let zero = [R::zero_bits(), R::zero_bits()];
    &&& workspace.core == core.id
    &&& freshly_registered(
        workspace.intermediate,
        core.registered_pencils@,
        core.extra_shape,
        zero,
    )
    &&& workspace.transpose.filled(core.lens.send, core.lens.receive, zero)
    &&& all_are(workspace.embedding_line@, core.embedding_len as int, zero)
    &&& all_are(workspace.fft_scratch@, core.lens.fft_scratch as int, zero)
    &&& all_are(workspace.line_buffer@, core.strided_line_len as int, zero)
}

/// An in-place array that was just allocated for a plan.
pub open spec fn fresh_mixed_c2c_array<R: FftReal, const N: usize, const M: usize>(
    core: MixedC2cCore<N, M>,
    array: MixedC2cInPlaceArray<R, N, M>,
) -> bool {
    &&& array.core == core.id
    &&& array.state == C2cState::Input
    &&& freshly_registered(
        array.array,
        core.registered_pencils@,
        core.extra_shape,
        [R::zero_bits(), R::zero_bits()],
    )
}

} // verus!
