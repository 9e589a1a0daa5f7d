//! Real-to-real plans: cosine and sine transforms along the axes that have a kind.

use vstd::prelude::*;

use core::marker::PhantomData;

use crate::array::PencilArray;
use crate::error::FftError;
use crate::error::LocalR2rError;
use crate::error::R2rError;

use crate::layout::Direction;
use crate::layout::DistributedLayout;
use crate::layout::ExtraShape;
use crate::layout::Pencil;
use crate::layout::TransposeMethod;
use crate::local::AxisR2rKind;
use crate::local::LocalR2rPlan;
use crate::local::R2rKind;
use crate::local::R2rLocal;
use crate::prepare::largest_of;
use crate::prepare::r2r_embedding;
use crate::prepare::RouteCandidate;
use crate::r2r::fresh_r2r_array;
use crate::r2r::fresh_r2r_in_place_workspace;
use crate::r2r::fresh_r2r_workspace;
use crate::r2r::r2r_in_place_error;
use crate::r2r::r2r_out_of_place_error;
use crate::r2r::strided_r2r_lines;
use crate::r2r::R2rCore;
use crate::r2r::R2rInPlaceArray;
use crate::r2r::R2rInPlaceWorkspace;
use crate::r2r::R2rWorkspace;
use crate::r2r::validate_r2r_in_place;
use crate::r2r::validate_r2r_out_of_place;
use crate::r2r_build::construct_core;
use crate::r2r_build::r2r_built;
use crate::r2r_build::r2r_refused;
use crate::r2r_build::R2rFacts;
use crate::registry::Stage;
use crate::request::PlanRequest;
use crate::run::Launch;
use crate::scalar::FftReal;
use crate::scalar::R2rScalar;
use crate::schedule::Mode;
use crate::transition::eager_exchanges;
use crate::transition::TransitionPlan;
use crate::words::Operation;
use crate::words::PlanFamily;
use crate::workspace::allocation_error;
use crate::workspace::filled_array;
use crate::workspace::some_allocation_error;
use crate::workspace::verdict;
use crate::workspace::verdict_of;
use crate::world::world_answers;
use crate::world::World;

verus! {

/// A plan of cosine and sine transforms.
#[derive(Debug)]
pub struct R2rPlan<T: R2rScalar, const N: usize, const M: usize> {
    /// What the plan consists of.
    pub core: R2rCore<N, M>,
    /// The values that it works on.
    pub scalar: PhantomData<T>,
}

/// The kinds of a real-to-real plan as what is done along each axis.
pub open spec fn axis_kinds_of<const N: usize>(kinds: Seq<Option<R2rKind>>, axis_kinds: Seq<Option<AxisR2rKind>>) -> bool {
    forall|axis: int|
        0 <= axis < N ==> #[trigger] axis_kinds[axis] == match kinds[axis] {
            Some(kind) => Some(AxisR2rKind::Fftw(kind)),
            None => None,
        }
}

/// Returns the kinds of a real-to-real plan as what is done along each axis.
pub fn axis_kinds<const N: usize>(kinds: &[Option<R2rKind>; N]) -> (result: [Option<AxisR2rKind>; N])
    ensures
        axis_kinds_of::<N>(kinds@, result@),
{
    let mut result: [Option<AxisR2rKind>; N] = vstd::array::array_fill_for_copy_types(None);
    let mut axis: usize = 0;
    while axis < N
        invariant
            axis <= N,
            forall|a: int|
                0 <= a < axis ==> #[trigger] result@[a] == match kinds@[a] {
                    Some(kind) => Some(AxisR2rKind::Fftw(kind)),
                    None => None,
                },
        decreases N - axis,
    {
        result[axis] = match kinds[axis] {
            Some(kind) => Some(AxisR2rKind::Fftw(kind)),
            None => None,
        };
        axis += 1;
    }
    result
}

/// What is known of a real-to-real plan before it is built.
pub open spec fn r2r_plan_facts<T: R2rScalar, const N: usize, const M: usize>(
    facts: R2rFacts<N, M>,
    id: u64,
    process_grid: [usize; M],
    kinds: [Option<R2rKind>; N],
) -> bool {
    &&& facts.id == id
    &&& facts.family == PlanFamily::R2r
    &&& facts.process_grid == process_grid
    &&& facts.value_kind == T::spec_value_kind()
    &&& facts.scalar_bytes == T::Real::bytes()
    &&& axis_kinds_of::<N>(kinds@, facts.axis_kinds@)
}

impl<T: R2rScalar, const N: usize, const M: usize> R2rPlan<T, N, M> {
    /// Asks for a real-to-real plan that starts from a layout.
    pub fn from_pencil(
        input: Pencil<N, M>,
        extra_shape: ExtraShape,
        kinds: [Option<R2rKind>; N],
    ) -> (request: PlanRequest<[Option<R2rKind>; N], N, M>)
        ensures
            request.starts_from(input, extra_shape, kinds, DistributedLayout::spec_with_method(TransposeMethod::AllToAllv)),
    {
        PlanRequest::on_pencil(input, extra_shape, kinds, DistributedLayout::default())
    }

    /// Asks for a real-to-real plan that starts from a layout with a transition method.
    pub fn from_pencil_with_method(
        input: Pencil<N, M>,
        extra_shape: ExtraShape,
        kinds: [Option<R2rKind>; N],
        method: TransposeMethod,
    ) -> (request: PlanRequest<[Option<R2rKind>; N], N, M>)
        ensures
            request.starts_from(input, extra_shape, kinds, DistributedLayout::spec_with_method(method)),
    {
        PlanRequest::on_pencil(input, extra_shape, kinds, DistributedLayout::with_method(method))
    }

    /// Asks for a real-to-real plan that starts from a layout with a layout policy.
    pub fn from_pencil_with_layout(
        input: Pencil<N, M>,
        extra_shape: ExtraShape,
        kinds: [Option<R2rKind>; N],
        layout: DistributedLayout,
    ) -> (request: PlanRequest<[Option<R2rKind>; N], N, M>)
        ensures
            request.starts_from(input, extra_shape, kinds, layout),
    {
        PlanRequest::on_pencil(input, extra_shape, kinds, layout)
    }

    /// Asks for a real-to-real plan that starts from the layout of an array.
    pub fn from_array(
        input: &PencilArray<T, N, M>,
        kinds: [Option<R2rKind>; N],
    ) -> (request: PlanRequest<[Option<R2rKind>; N], N, M>)
        ensures
            request.starts_from(input.pencil, input.extra_shape, kinds, DistributedLayout::spec_with_method(TransposeMethod::AllToAllv)),
    {
        PlanRequest::on_array(input, kinds, DistributedLayout::default())
    }

    /// Asks for a real-to-real plan that starts from the layout of an array with a transition
    /// method.
    pub fn from_array_with_method(
        input: &PencilArray<T, N, M>,
        kinds: [Option<R2rKind>; N],
        method: TransposeMethod,
    ) -> (request: PlanRequest<[Option<R2rKind>; N], N, M>)
        ensures
            request.starts_from(input.pencil, input.extra_shape, kinds, DistributedLayout::spec_with_method(method)),
    {
        PlanRequest::on_array(input, kinds, DistributedLayout::with_method(method))
    }

    /// Asks for a real-to-real plan that starts from the layout of an array with a layout policy.
    pub fn from_array_with_layout(
        input: &PencilArray<T, N, M>,
        kinds: [Option<R2rKind>; N],
        layout: DistributedLayout,
    ) -> (request: PlanRequest<[Option<R2rKind>; N], N, M>)
        ensures
            request.starts_from(input.pencil, input.extra_shape, kinds, layout),
    {
        PlanRequest::on_array(input, kinds, layout)
    }

    /// Asks for a real-to-real plan that starts from the canonical layout of some extents.
    pub fn from_shape(
        global_shape: [usize; N],
        extra_shape: ExtraShape,
        kinds: [Option<R2rKind>; N],
    ) -> (request: PlanRequest<[Option<R2rKind>; N], N, M>)
        ensures
            request.starts_canonically(global_shape, extra_shape, kinds, DistributedLayout::spec_with_method(TransposeMethod::AllToAllv)),
    {
        PlanRequest::on_shape(global_shape, extra_shape, kinds, DistributedLayout::default())
    }

    /// Asks for a real-to-real plan that starts from the canonical layout of some extents with a
    /// transition method.
    pub fn from_shape_with_method(
        global_shape: [usize; N],
        extra_shape: ExtraShape,
        kinds: [Option<R2rKind>; N],
        method: TransposeMethod,
    ) -> (request: PlanRequest<[Option<R2rKind>; N], N, M>)
        ensures
            request.starts_canonically(global_shape, extra_shape, kinds, DistributedLayout::spec_with_method(method)),
    {
        PlanRequest::on_shape(global_shape, extra_shape, kinds, DistributedLayout::with_method(method))
    }

    /// Asks for a real-to-real plan that starts from the canonical layout of some extents with a
    /// layout policy.
    pub fn from_shape_with_layout(
        global_shape: [usize; N],
        extra_shape: ExtraShape,
        kinds: [Option<R2rKind>; N],
        layout: DistributedLayout,
    ) -> (request: PlanRequest<[Option<R2rKind>; N], N, M>)
        ensures
            request.starts_canonically(global_shape, extra_shape, kinds, layout),
    {
        PlanRequest::on_shape(global_shape, extra_shape, kinds, layout)
    }

    /// Builds the plan that was asked for. Whether there is room rests on the
    /// machine: `construct_core_in` says what follows for each answer, and `law_r2r_plan_owed` when a
    /// plan is owed.
    pub fn construct<H: Fn([u64; 5]) -> bool, D: Fn(Option<Vec<u64>>, Option<usize>) -> Result<Vec<u64>, FftError>, A: Fn(bool) -> bool, P: Fn([usize; N]) -> Result<Pencil<N, M>, FftError>, Q: Fn(Pencil<N, M>, [usize; N], bool) -> Result<RouteCandidate<N, M>, FftError>, T2: Fn(&Vec<Stage<N, M>>, &Vec<usize>, &ExtraShape, TransposeMethod, usize) -> Result<TransitionPlan, FftError>, K: Fn(AxisR2rKind, usize) -> Result<LocalR2rPlan, LocalR2rError>>(
        world: &World<H, D, A, P, Q, T2>,
        planner: &K,
        id: u64,
        process_grid: [usize; M],
        request: PlanRequest<[Option<R2rKind>; N], N, M>,
    ) -> (result: Result<R2rPlan<T, N, M>, R2rError>)
        requires
            N >= 2,
            world_answers(*world),
            forall|asked: AxisR2rKind, n: usize| #[trigger] planner.requires((asked, n)),
            request.extra_shape.wf(),
        ensures
            exists|facts: R2rFacts<N, M>|
                {
                    &&& #[trigger] r2r_plan_facts::<T, N, M>(facts, id, process_grid, request.transform)
                    &&& match result {
                        Ok(plan) => {
                            &&& plan.core.wf()
                            &&& plan.core.id == id
                            &&& plan.core.extra_shape == request.extra_shape
                            &&& plan.core.kinds == request.transform
                            &&& plan.core.layout == request.layout
                            &&& plan.core.embedding_len == largest_of(
                                plan.core.locals@.map_values(|local: R2rLocal| r2r_embedding(local)),
                            )
                            &&& plan.core.strided_line_len == largest_of(
                                strided_r2r_lines(plan.core.stages@, plan.core.locals@),
                            )
                            &&& r2r_built(*world, *planner, facts, request, plan.core)
                        },
                        Err(error) => r2r_refused(*world, *planner, facts, request, error),
                    }
                },
    {
        let facts = R2rFacts {
            id,
            family: PlanFamily::R2r,
            process_grid,
            value_kind: T::value_kind(),
            scalar_bytes: T::Real::scalar_bytes(),
            axis_kinds: axis_kinds(&request.transform),
        };
        assert(r2r_plan_facts::<T, N, M>(facts, id, process_grid, request.transform));
        match construct_core(world, planner, &facts, request) {
            Ok(core) => {
                Ok(R2rPlan { core, scalar: PhantomData })
            },
            Err(error) => Err(error),
        }
    }

    /// Returns the layout that the plan starts from.
    pub fn input_pencil(&self) -> (pencil: Pencil<N, M>)
        requires
            self.core.wf(),
        ensures
            pencil == self.core.spec_input(),
    {
        self.core.stages[0].input
    }

    /// Returns the layout that the plan leaves.
    pub fn output_pencil(&self) -> (pencil: Pencil<N, M>)
        requires
            self.core.wf(),
        ensures
            pencil == self.core.spec_output(),
    {
        self.core.stages[self.core.stages.len() - 1].output
    }

    /// Returns the extra dimensions.
    pub fn extra_shape(&self) -> (shape: &ExtraShape)
        ensures
            *shape == self.core.extra_shape,
    {
        &self.core.extra_shape
    }

    /// Returns how values are exchanged and laid out.
    pub fn layout(&self) -> (layout: DistributedLayout)
        ensures
            layout == self.core.layout,
    {
        self.core.layout
    }

    /// Returns the kind along each axis.
    pub fn kinds(&self) -> (kinds: [Option<R2rKind>; N])
        ensures
            kinds == self.core.kinds,
    {
        self.core.kinds
    }

    /// Returns the words that processes agree on before an execution over a collection.
    pub fn collection_descriptor(&self) -> (words: &Vec<u64>)
        ensures
            *words == self.core.descriptor,
    {
        &self.core.descriptor
    }

    /// Checks the arguments of an out-of-place execution over a collection.
    pub fn collection_preflight(
        &self,
        direction: Direction,
        source: &PencilArray<T, N, M>,
        destination: &PencilArray<T, N, M>,
        workspace: &R2rWorkspace<T, N, M>,
    ) -> (result: Result<(), R2rError>)
        requires
            self.core.wf(),
        ensures
            result == verdict_of::<R2rError>(
                r2r_out_of_place_error(
                    self.core,
                    direction,
                    *source,
                    *destination,
                    *workspace,
                ),
            ),
    {
        verdict(
            validate_r2r_out_of_place(&self.core, direction, source, destination, workspace),
        )
    }

    /// Checks the arguments of an in-place execution over a collection.
    pub fn collection_preflight_in_place(
        &self,
        direction: Direction,
        array: &R2rInPlaceArray<T, N, M>,
        workspace: &R2rInPlaceWorkspace<T, N, M>,
    ) -> (result: Result<(), R2rError>)
        requires
            self.core.wf(),
        ensures
            result == verdict_of::<R2rError>(
                r2r_in_place_error(self.core, direction, *array, *workspace),
            ),
    {
        verdict(validate_r2r_in_place(&self.core, direction, array, workspace))
    }

    /// Allocates an array of zeros to start from. Whether there is room rests on the machine;
    /// `PencilArray::from_elem_in` says what follows for each answer.
    pub fn allocate_input(&self) -> (result: Result<PencilArray<T, N, M>, R2rError>)
        requires
            self.core.wf(),
        ensures
            match result {
                Ok(array) => filled_array(
                    array,
                    self.core.spec_input(),
                    self.core.extra_shape,
                    T::zero_value(),
                ),
                Err(error) => error matches R2rError::Fft(fault) && allocation_error(
                    fault,
                    self.core.spec_input().local_len * self.core.extra_shape.element_count,
                ),
            },
    {
        proof {
            assert(self.core.stages@[0].wf());
        }
        self.core.allocate_array(&self.core.stages[0].input)
    }

    /// Allocates an array of zeros for the result. Whether there is room rests on the machine;
    /// `PencilArray::from_elem_in` says what follows for each answer.
    pub fn allocate_output(&self) -> (result: Result<PencilArray<T, N, M>, R2rError>)
        requires
            self.core.wf(),
        ensures
            match result {
                Ok(array) => filled_array(
                    array,
                    self.core.spec_output(),
                    self.core.extra_shape,
                    T::zero_value(),
                ),
                Err(error) => error matches R2rError::Fft(fault) && allocation_error(
                    fault,
                    self.core.spec_output().local_len * self.core.extra_shape.element_count,
                ),
            },
    {
        proof {
            assert(self.core.stages@[self.core.stages@.len() - 1].wf());
        }
        self.core.allocate_array(&self.core.stages[self.core.stages.len() - 1].output)
    }

    /// Allocates the buffers of an out-of-place execution. Whether there is room rests on the
    /// machine; `allocate_in_place_workspace_in` says what follows for each answer.
    pub fn allocate_workspace(&self) -> (result: Result<R2rWorkspace<T, N, M>, R2rError>)
        requires
            self.core.wf(),
        ensures
            match result {
                Ok(workspace) => fresh_r2r_workspace(self.core, workspace),
                Err(error) => error matches R2rError::Fft(fault) && some_allocation_error(
                    fault,
                    self.core.buffer_lens(),
                ),
            },
    {
        self.core.allocate_workspace()
    }

    /// Allocates an array for in-place executions. Whether there is room rests on the machine;
    /// `ManyPencilArray::from_elem_in` says what follows for each answer.
    pub fn allocate_in_place(&self) -> (result: Result<R2rInPlaceArray<T, N, M>, R2rError>)
        requires
            self.core.wf(),
        ensures
            match result {
                Ok(array) => fresh_r2r_array(self.core, array),
                Err(error) => error matches R2rError::Fft(fault) && some_allocation_error(
                    fault,
                    self.core.buffer_lens(),
                ),
            },
    {
        self.core.allocate_in_place()
    }

    /// Allocates the buffers of an in-place execution. Whether there is room rests on the
    /// machine; `allocate_in_place_workspace_in` says what follows for each answer.
    pub fn allocate_in_place_workspace(&self) -> (result: Result<
        R2rInPlaceWorkspace<T, N, M>,
        R2rError,
    >)
        ensures
            match result {
                Ok(workspace) => fresh_r2r_in_place_workspace(self.core, workspace),
                Err(error) => error matches R2rError::Fft(fault) && some_allocation_error(
                    fault,
                    self.core.buffer_lens(),
                ),
            },
    {
        self.core.allocate_in_place_workspace()
    }

    /// Prepares the unnormalized transform from `source` to `destination`.
    pub fn forward(
        &self,
        source: &PencilArray<T, N, M>,
        destination: &PencilArray<T, N, M>,
        workspace: &R2rWorkspace<T, N, M>,
    ) -> (launch: Launch<R2rError>)
        requires
            self.core.wf(),
        ensures
            launch.describes(
                (Operation::Run {
                    family: PlanFamily::R2r,
                    direction: Direction::Forward,
                    in_place: false,
                }),
                Direction::Forward,
                r2r_out_of_place_error(
                    self.core,
                    Direction::Forward,
                    *source,
                    *destination,
                    *workspace,
                ),
                self.core.itinerary().list(
                    Direction::Forward,
                    Mode::OutOfPlace,
                    eager_exchanges(self.core.transitions@, Direction::Forward),
                ),
            ),
    {
        self.core.launch(PlanFamily::R2r, Direction::Forward, source, destination, workspace)
    }

    /// Prepares the normalized way back from `source` to `destination`.
    pub fn inverse(
        &self,
        source: &PencilArray<T, N, M>,
        destination: &PencilArray<T, N, M>,
        workspace: &R2rWorkspace<T, N, M>,
    ) -> (launch: Launch<R2rError>)
        requires
            self.core.wf(),
        ensures
            launch.describes(
                (Operation::Run {
                    family: PlanFamily::R2r,
                    direction: Direction::Inverse,
                    in_place: false,
                }),
                Direction::Inverse,
                r2r_out_of_place_error(
                    self.core,
                    Direction::Inverse,
                    *source,
                    *destination,
                    *workspace,
                ),
                self.core.itinerary().list(
                    Direction::Inverse,
                    Mode::OutOfPlace,
                    eager_exchanges(self.core.transitions@, Direction::Inverse),
                ),
            ),
    {
        self.core.launch(PlanFamily::R2r, Direction::Inverse, source, destination, workspace)
    }

    /// Prepares the way back without normalization from `source` to `destination`.
    pub fn backward(
        &self,
        source: &PencilArray<T, N, M>,
        destination: &PencilArray<T, N, M>,
        workspace: &R2rWorkspace<T, N, M>,
    ) -> (launch: Launch<R2rError>)
        requires
            self.core.wf(),
        ensures
            launch.describes(
                (Operation::Run {
                    family: PlanFamily::R2r,
                    direction: Direction::Backward,
                    in_place: false,
                }),
                Direction::Backward,
                r2r_out_of_place_error(
                    self.core,
                    Direction::Backward,
                    *source,
                    *destination,
                    *workspace,
                ),
                self.core.itinerary().list(
                    Direction::Backward,
                    Mode::OutOfPlace,
                    eager_exchanges(self.core.transitions@, Direction::Backward),
                ),
            ),
    {
        self.core.launch(PlanFamily::R2r, Direction::Backward, source, destination, workspace)
    }

    /// Prepares the unnormalized transform in place.
    pub fn forward_in_place(
        &self,
        array: &R2rInPlaceArray<T, N, M>,
        workspace: &R2rInPlaceWorkspace<T, N, M>,
    ) -> (launch: Launch<R2rError>)
        requires
            self.core.wf(),
        ensures
            launch.describes(
                (Operation::Run {
                    family: PlanFamily::R2r,
                    direction: Direction::Forward,
                    in_place: true,
                }),
                Direction::Forward,
                r2r_in_place_error(self.core, Direction::Forward, *array, *workspace),
                self.core.itinerary().list(
                    Direction::Forward,
                    Mode::InPlace,
                    eager_exchanges(self.core.transitions@, Direction::Forward),
                ),
            ),
    {
        self.core.launch_in_place(PlanFamily::R2r, Direction::Forward, array, workspace)
    }

    /// Prepares the normalized way back in place.
    pub fn inverse_in_place(
        &self,
        array: &R2rInPlaceArray<T, N, M>,
        workspace: &R2rInPlaceWorkspace<T, N, M>,
    ) -> (launch: Launch<R2rError>)
        requires
            self.core.wf(),
        ensures
            launch.describes(
                (Operation::Run {
                    family: PlanFamily::R2r,
                    direction: Direction::Inverse,
                    in_place: true,
                }),
                Direction::Inverse,
                r2r_in_place_error(self.core, Direction::Inverse, *array, *workspace),
                self.core.itinerary().list(
                    Direction::Inverse,
                    Mode::InPlace,
                    eager_exchanges(self.core.transitions@, Direction::Inverse),
                ),
            ),
    {
        self.core.launch_in_place(PlanFamily::R2r, Direction::Inverse, array, workspace)
    }

    /// Prepares the way back without normalization in place.
    pub fn backward_in_place(
        &self,
        array: &R2rInPlaceArray<T, N, M>,
        workspace: &R2rInPlaceWorkspace<T, N, M>,
    ) -> (launch: Launch<R2rError>)
        requires
            self.core.wf(),
        ensures
            launch.describes(
                (Operation::Run {
                    family: PlanFamily::R2r,
                    direction: Direction::Backward,
                    in_place: true,
                }),
                Direction::Backward,
                r2r_in_place_error(self.core, Direction::Backward, *array, *workspace),
                self.core.itinerary().list(
                    Direction::Backward,
                    Mode::InPlace,
                    eager_exchanges(self.core.transitions@, Direction::Backward),
                ),
            ),
    {
        self.core.launch_in_place(PlanFamily::R2r, Direction::Backward, array, workspace)
    }
}

} // verus!
